use rtp_ingest::audio::AudioChunk;
use rtp_ingest::detect_audio_format;
use rtp_ingest::registry::StreamManager;
use rtp_ingest::{LatencyMetadata, StreamId, StreamState};

fn chunk_with_sequence(id: StreamId, seq: u16) -> AudioChunk {
    AudioChunk {
        data: vec![0u8; 160],
        format: detect_audio_format(0),
        sequence_number: u32::from(seq),
        timestamp: 0,
        metadata: LatencyMetadata::new(id),
    }
}

#[test]
fn lookup_is_idempotent_for_one_source() {
    let mut m = StreamManager::new();
    let first = m.get_or_create_stream("10.0.0.1:5004", 0xDEADBEEF);
    for _ in 0..10 {
        let again = m.get_or_create_stream("10.0.0.1:5004", 0xDEADBEEF);
        assert_eq!(first, again);
    }
    assert_eq!(m.stream_count(), 1);
}

#[test]
fn lookup_ignores_source_address_changes() {
    let mut m = StreamManager::new();
    let first = m.get_or_create_stream("10.0.0.1:5004", 7);
    let again = m.get_or_create_stream("192.168.0.9:6000", 7);
    assert_eq!(first, again);
    assert_eq!(m.stream_count(), 1);
}

#[test]
fn distinct_sources_get_distinct_identifiers() {
    let mut m = StreamManager::new();
    let a = m.get_or_create_stream("10.0.0.1:5004", 1);
    let b = m.get_or_create_stream("10.0.0.1:5004", 2);
    let c = m.get_or_create_stream("10.0.0.2:5004", 3);
    assert_ne!(a, b);
    assert_ne!(a, c);
    assert_ne!(b, c);
    assert_eq!(m.stream_count(), 3);
}

#[test]
fn new_stream_metadata_is_active_with_source() {
    let mut m = StreamManager::new();
    let id = m.get_or_create_stream("10.1.2.3:4000", 42);
    let meta = m.get_stream_metadata(&id).expect("stream must exist");
    assert_eq!(meta.id, id);
    assert_eq!(meta.state, StreamState::Active);
    assert_eq!(meta.ssrc, Some(42));
    assert_eq!(meta.source_addr, "10.1.2.3:4000");
}

#[test]
fn unknown_identifier_has_no_metadata() {
    let m = StreamManager::new();
    assert!(m.get_stream_metadata(&StreamId(12345)).is_none());
    assert!(m.stream_stats(&StreamId(12345)).is_none());
}

#[test]
fn in_order_sequence_run_counts_no_anomaly() {
    let mut m = StreamManager::new();
    let id = m.get_or_create_stream("127.0.0.1:5004", 9);
    for seq in 1u16..=200 {
        let outcome = m.process_audio_chunk(id, &chunk_with_sequence(id, seq));
        assert!(outcome.known_stream);
        assert!(outcome.anomaly.is_none());
    }
    let stats = m.stream_stats(&id).unwrap();
    assert_eq!(stats.packet_count, 200);
    assert_eq!(stats.out_of_order_count, 0);
    assert_eq!(stats.last_sequence, 200);
}

#[test]
fn single_swap_counts_both_legs_and_keeps_last_observed() {
    let mut m = StreamManager::new();
    let id = m.get_or_create_stream("127.0.0.1:5004", 9);
    for seq in [1u16, 2, 4, 3] {
        m.process_audio_chunk(id, &chunk_with_sequence(id, seq));
    }
    let stats = m.stream_stats(&id).unwrap();
    assert_eq!(stats.packet_count, 4);
    // An adjacent swap trips the detector twice: 4 arrives where 3 was
    // expected, and 3 arrives where 5 was expected.  The tracker counts
    // every mismatch and never distinguishes reorder from duplicate.
    assert_eq!(stats.out_of_order_count, 2);
    // No correction is performed: the last observed number is stored.
    assert_eq!(stats.last_sequence, 3);
}

#[test]
fn wraparound_successor_is_not_an_anomaly() {
    let mut m = StreamManager::new();
    let id = m.get_or_create_stream("127.0.0.1:5004", 9);
    m.process_audio_chunk(id, &chunk_with_sequence(id, 65535));
    let outcome = m.process_audio_chunk(id, &chunk_with_sequence(id, 0));
    assert!(outcome.anomaly.is_none());
    let stats = m.stream_stats(&id).unwrap();
    assert_eq!(stats.out_of_order_count, 0);
    assert_eq!(stats.last_sequence, 0);
}

#[test]
fn anomaly_reports_expected_and_observed() {
    let mut m = StreamManager::new();
    let id = m.get_or_create_stream("127.0.0.1:5004", 9);
    m.process_audio_chunk(id, &chunk_with_sequence(id, 10));
    let outcome = m.process_audio_chunk(id, &chunk_with_sequence(id, 14));
    let anomaly = outcome.anomaly.expect("gap must be observed");
    assert_eq!(anomaly.expected, 11);
    assert_eq!(anomaly.observed, 14);
}

#[test]
fn duplicate_counts_like_reorder() {
    let mut m = StreamManager::new();
    let id = m.get_or_create_stream("127.0.0.1:5004", 9);
    m.process_audio_chunk(id, &chunk_with_sequence(id, 5));
    let outcome = m.process_audio_chunk(id, &chunk_with_sequence(id, 5));
    assert!(outcome.anomaly.is_some());
    assert_eq!(m.stream_stats(&id).unwrap().out_of_order_count, 1);
}

#[test]
fn first_packet_only_seeds_the_tracker() {
    let mut m = StreamManager::new();
    let id = m.get_or_create_stream("127.0.0.1:5004", 9);
    let outcome = m.process_audio_chunk(id, &chunk_with_sequence(id, 777));
    assert!(outcome.anomaly.is_none());
    let stats = m.stream_stats(&id).unwrap();
    assert_eq!(stats.packet_count, 1);
    assert_eq!(stats.last_sequence, 777);
}

#[test]
fn chunk_for_unknown_stream_changes_nothing() {
    let mut m = StreamManager::new();
    let id = m.get_or_create_stream("127.0.0.1:5004", 9);
    let bogus = StreamId(id.0 ^ 1);
    let outcome = m.process_audio_chunk(bogus, &chunk_with_sequence(id, 1));
    assert!(!outcome.known_stream);
    assert!(outcome.anomaly.is_none());
    assert!(outcome.summary.is_none());
    assert_eq!(m.stream_stats(&id).unwrap().packet_count, 0);
}

#[test]
fn summary_is_emitted_every_thousand_packets() {
    let mut m = StreamManager::new();
    let id = m.get_or_create_stream("127.0.0.1:5004", 9);
    let mut summaries = 0;
    for seq in 0..2000u32 {
        let outcome = m.process_audio_chunk(id, &chunk_with_sequence(id, seq as u16));
        if let Some(summary) = outcome.summary {
            summaries += 1;
            assert_eq!(summary.packet_count % 1000, 0);
            assert_eq!(summary.out_of_order_count, 0);
        }
    }
    assert_eq!(summaries, 2);
}

#[test]
fn sequence_number_widening_uses_low_16_bits() {
    let mut m = StreamManager::new();
    let id = m.get_or_create_stream("127.0.0.1:5004", 9);
    let mut chunk = chunk_with_sequence(id, 0);
    chunk.sequence_number = 0x0001_0005;
    m.process_audio_chunk(id, &chunk);
    assert_eq!(m.stream_stats(&id).unwrap().last_sequence, 5);
}
