//! Identity and metadata of one logical media stream.

use vstd::prelude::*;

verus! {

/// Globally unique identifier of a logical stream: a 128-bit value drawn
/// at random when the stream is first seen.
#[derive(Debug, Clone, Copy, PartialEq, Eq, Hash, Structural)]
pub struct StreamId(pub u128);

/// Lifecycle state of a logical stream.  Only `Connecting` and `Active`
/// are ever produced by the ingestion engine; the remaining states exist
/// in the data model for a future lifecycle-management component.
#[derive(Debug, Clone, Copy, PartialEq, Eq, Structural)]
pub enum StreamState {
    Connecting,
    Active,
    Paused,
    Disconnected,
    Error,
}

/// Identity and descriptive metadata of one media source.
#[derive(Debug, Clone)]
pub struct StreamMetadata {
    pub id: StreamId,
    /// Source network address, in textual form.
    pub source_addr: String,
    /// Creation time, in milliseconds since the Unix epoch.
    pub created_at: i64,
    pub state: StreamState,
    pub codec: String,
    /// Synchronization source carried by the stream's packets, once known.
    pub ssrc: Option<u32>,
    pub call_id: Option<String>,
}

impl StreamMetadata {
    /// Fresh metadata for a source address: a random identifier, the
    /// current time, state `Connecting`, and everything else unset.
    pub fn new(source_addr: String) -> (r: Self)
        ensures
            r.source_addr == source_addr,
            r.state == StreamState::Connecting,
            r.codec@ == Seq::<char>::empty(),
            r.ssrc is None,
            r.call_id is None,
    {
        StreamMetadata {
            id: StreamId(crate::host::random_u128()),
            source_addr,
            created_at: crate::host::now_millis(),
            state: StreamState::Connecting,
            codec: String::new(),
            ssrc: None,
            call_id: None,
        }
    }

    /// The same metadata with the transport-level details filled in.
    #[must_use]
    pub fn with_rtp_info(self, ssrc: u32, codec: String) -> (r: Self)
        ensures
            r.ssrc == Some(ssrc),
            r.codec == codec,
            r.id == self.id,
            r.source_addr == self.source_addr,
            r.created_at == self.created_at,
            r.state == self.state,
            r.call_id == self.call_id,
    {
        StreamMetadata { ssrc: Some(ssrc), codec, ..self }
    }
}

} // verus!
