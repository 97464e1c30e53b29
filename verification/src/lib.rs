//! Ingestion edge of a real-time audio pipeline.
//!
//! The library receives raw datagram payloads carrying media packets,
//! decodes them, demultiplexes them into logical streams keyed by their
//! synchronization source, tracks sequencing anomalies, classifies the
//! payload format and records per-packet latency instrumentation.

pub mod audio;
mod host;
pub mod ingest;
pub mod latency;
pub mod packet;
pub mod registry;
pub mod samples;
pub mod sender;
pub mod stream;
pub mod ulaw;

pub use audio::{detect_audio_format, AudioCodec, AudioFormat};
pub use latency::{LatencyMetadata, ProcessingStage, StageMetrics};
pub use stream::{StreamId, StreamMetadata, StreamState};
pub use ulaw::{encode_ulaw_payload, linear_to_ulaw};
