use rtp_ingest::{LatencyMetadata, StreamId};

#[test]
fn started_then_ended_stage_is_closed_with_ordered_times() {
    let mut meta = LatencyMetadata::new_at(StreamId(1), 2, 1_000);
    meta.start_stage_at("decode", "rtp-ingest", 1_010);
    meta.end_stage_at(1_025);
    assert_eq!(meta.stages.len(), 1);
    let stage = &meta.stages[0];
    assert_eq!(stage.name, "decode");
    assert_eq!(stage.component, "rtp-ingest");
    assert_eq!(stage.start_time, 1_010);
    assert_eq!(stage.end_time, Some(1_025));
    assert!(stage.end_time.unwrap() >= stage.start_time);
    assert_eq!(meta.stage_latency("decode"), Some(15));
}

#[test]
fn end_stage_with_nothing_open_is_a_no_op() {
    let mut meta = LatencyMetadata::new_at(StreamId(1), 2, 0);
    meta.end_stage_at(50);
    assert!(meta.stages.is_empty());

    meta.start_stage_at("a", "c", 10);
    meta.end_stage_at(20);
    let before = meta.stages.clone();
    meta.end_stage_at(30); // everything already closed
    assert_eq!(meta.stages.len(), before.len());
    assert_eq!(meta.stages[0].end_time, Some(20));
}

#[test]
fn end_stage_closes_the_most_recently_opened_open_stage() {
    let mut meta = LatencyMetadata::new_at(StreamId(1), 2, 0);
    meta.start_stage_at("outer", "c", 10);
    meta.start_stage_at("inner", "c", 20);
    meta.end_stage_at(30);
    assert_eq!(meta.stages[1].end_time, Some(30)); // inner closed first
    assert_eq!(meta.stages[0].end_time, None);
    meta.end_stage_at(40);
    assert_eq!(meta.stages[0].end_time, Some(40)); // then outer
}

#[test]
fn stage_latency_reads_the_first_closed_match() {
    let mut meta = LatencyMetadata::new_at(StreamId(1), 2, 0);
    meta.start_stage_at("x", "c", 10);
    meta.start_stage_at("x", "c", 100);
    meta.end_stage_at(160); // closes the second "x"
    assert_eq!(meta.stage_latency("x"), Some(60));
    meta.end_stage_at(25); // closes the first "x"
    assert_eq!(meta.stage_latency("x"), Some(15));
    assert_eq!(meta.stage_latency("absent"), None);
}

#[test]
fn stage_latency_is_absent_while_the_stage_is_open() {
    let mut meta = LatencyMetadata::new_at(StreamId(1), 2, 0);
    meta.start_stage_at("only", "c", 10);
    assert_eq!(meta.stage_latency("only"), None);
}

#[test]
fn latencies_are_non_negative_under_clock_skew() {
    let mut meta = LatencyMetadata::new_at(StreamId(1), 2, 1_000);
    // The clock went backwards between start and end.
    meta.start_stage_at("skewed", "c", 900);
    meta.end_stage_at(850);
    assert_eq!(meta.stage_latency("skewed"), Some(50));
    assert_eq!(meta.total_latency_at(400), 600);
    assert_eq!(meta.total_latency_at(1_700), 700);
}

#[test]
fn wall_clock_constructors_produce_empty_instrumentation() {
    let meta = LatencyMetadata::new(StreamId(9));
    assert_eq!(meta.stream_id, StreamId(9));
    assert!(meta.stages.is_empty());
    let mut meta = meta;
    meta.start_stage("s", "c");
    assert_eq!(meta.stages.len(), 1);
    assert!(meta.stages[0].end_time.is_none());
    meta.end_stage();
    assert!(meta.stages[0].end_time.is_some());
}
