//! Per-packet handling: the compute path of the receive loop.
//!
//! One raw datagram is decoded, demultiplexed into its logical stream,
//! fed to the sequence tracker, classified, and wrapped into an audio
//! chunk with latency instrumentation attached.  A decode failure is
//! reported to the caller and leaves the registry untouched.

use vstd::prelude::*;

use crate::audio::{detect_audio_format, spec_detect_audio_format, AudioChunk};
use crate::latency::LatencyMetadata;
use crate::packet::{decode_packet, spec_decode, DecodeError, RtpPacketModel};
use crate::registry::{spec_lookup_post, spec_process_post, ProcessOutcome, StreamManager};
use crate::stream::StreamId;

verus! {

/// Everything produced for one successfully handled datagram.
pub struct HandledPacket {
    /// The stream the packet was demultiplexed into.
    pub stream_id: StreamId,
    /// The decoded payload with format and instrumentation attached.
    pub chunk: AudioChunk,
    /// What the sequence tracker observed.
    pub outcome: ProcessOutcome,
}

/// What a handled chunk says about the decoded packet: payload, format,
/// widened sequence number, timestamp, and instrumentation carrying one
/// closed ingestion stage.
pub open spec fn spec_handled_chunk(chunk: AudioChunk, m: RtpPacketModel, id: StreamId) -> bool {
    &&& chunk.data@ == m.payload
    &&& chunk.format == spec_detect_audio_format(m.payload_type)
    &&& chunk.sequence_number == m.sequence_number as u32
    &&& chunk.timestamp == m.timestamp
    &&& chunk.metadata.stream_id == id
    &&& chunk.metadata.stages@.len() == 1
    &&& chunk.metadata.stages@[0].name@ == "rtp_ingestion"@
    &&& chunk.metadata.stages@[0].component@ == "rtp-ingest"@
    &&& chunk.metadata.stages@[0].end_time is Some
}

/// Handles one raw datagram: decodes it, looks the stream up or creates
/// it, updates the stream's counters, classifies the payload format, and
/// returns the assembled chunk with its observations.  A datagram the
/// decoder rejects is returned as that error, and the registry is left
/// exactly as it was: no entry is created or mutated.
pub fn handle_packet(manager: &mut StreamManager, data: &[u8], source_addr: &str) -> (r: Result<
    HandledPacket,
    DecodeError,
>)
    requires
        old(manager).wf(),
    ensures
        final(manager).wf(),
        match r {
            Err(e) => {
                &&& spec_decode(data@) == Err::<RtpPacketModel, DecodeError>(e)
                &&& *final(manager) == *old(manager)
            },
            Ok(h) => {
                &&& spec_decode(data@) is Ok
                &&& ({
                    let m = spec_decode(data@)->Ok_0;
                    &&& spec_handled_chunk(h.chunk, m, h.stream_id)
                    &&& exists|mid: StreamManager|
                        spec_lookup_post(*old(manager), mid, source_addr@, m.ssrc, h.stream_id)
                            && spec_process_post(
                            mid,
                            *final(manager),
                            h.stream_id,
                            m.sequence_number,
                            h.outcome,
                        )
                })
            },
        },
{
    let packet = match decode_packet(data) {
        Ok(p) => p,
        Err(e) => {
            return Err(e);
        },
    };
    let stream_id = manager.get_or_create_stream(source_addr, packet.header.ssrc);
    let ghost mid = *manager;

    let mut metadata = LatencyMetadata::new(stream_id);
    metadata.start_stage("rtp_ingestion", "rtp-ingest");

    let mut chunk = AudioChunk {
        data: packet.payload,
        format: detect_audio_format(packet.header.payload_type),
        sequence_number: packet.header.sequence_number as u32,
        timestamp: packet.header.timestamp,
        metadata,
    };

    let outcome = manager.process_audio_chunk(stream_id, &chunk);

    chunk.metadata.end_stage();
    proof {
        assert(chunk.metadata.stages@.len() == 1);
        assert(chunk.metadata.stages@[0].end_time is Some);
        assert((chunk.sequence_number % 0x10000) as u16 == packet.header.sequence_number);
        assert(spec_lookup_post(
            *old(manager),
            mid,
            source_addr@,
            spec_decode(data@)->Ok_0.ssrc,
            stream_id,
        ));
    }
    Ok(HandledPacket { stream_id, chunk, outcome })
}

} // verus!
