//! The stream registry: demultiplexes packets into logical streams by
//! their synchronization source and owns each stream's runtime counters.
//!
//! A synchronization source maps to exactly one stream for the registry's
//! lifetime; entries are never removed.  Stream identifiers are drawn at
//! random with the top bit held clear; in the vanishingly rare case that a
//! drawn identifier is already in use, the registry hands out the next
//! identifier from a reserved top-bit-set pool instead, so identifiers
//! never collide.

use std::collections::HashMap;
use vstd::prelude::*;

use crate::audio::AudioChunk;
use crate::stream::{StreamId, StreamMetadata, StreamState};

verus! {

broadcast use vstd::std_specs::hash::group_hash_axioms;

/// First identifier of the reserved fall-back pool: all randomly drawn
/// identifiers lie below it.
pub const RESERVED_ID_BASE: u128 = 0x80000000_00000000_00000000_00000000;

/// One registry entry: stream metadata plus the runtime counters the
/// registry owns.
#[derive(Debug)]
pub struct StreamInfo {
    pub metadata: StreamMetadata,
    /// Packets processed for this stream so far; saturates at its maximum.
    pub packet_count: u64,
    /// Sequence number of the most recent packet, as seen on the wire.
    pub last_sequence: u16,
    /// Arrivals whose sequence number was not the expected successor;
    /// saturates at its maximum.
    pub out_of_order_count: u64,
}

/// Diagnostic observation for one out-of-order or duplicate arrival.
#[derive(Debug, Clone, Copy, PartialEq, Eq, Structural)]
pub struct SequenceAnomaly {
    pub expected: u16,
    pub observed: u16,
}

/// Snapshot of one stream's runtime counters.
#[derive(Debug, Clone, Copy, PartialEq, Eq, Structural)]
pub struct TrackerSnapshot {
    pub packet_count: u64,
    pub last_sequence: u16,
    pub out_of_order_count: u64,
}

/// What processing one chunk reported.
#[derive(Debug, Clone, Copy, PartialEq, Eq, Structural)]
pub struct ProcessOutcome {
    /// Whether the registry knew the given stream identifier.
    pub known_stream: bool,
    /// The diagnostic observation, when the arrival was anomalous.
    pub anomaly: Option<SequenceAnomaly>,
    /// The summary observation, emitted every thousandth packet.
    pub summary: Option<StreamStatsSummary>,
}

/// Cumulative counters carried by a summary observation.
#[derive(Debug, Clone, Copy, PartialEq, Eq, Structural)]
pub struct StreamStatsSummary {
    pub packet_count: u64,
    pub out_of_order_count: u64,
}

/// A counter step that stops at the counter's maximum instead of
/// overflowing.
pub open spec fn spec_saturating_inc(c: u64) -> u64 {
    if c < u64::MAX {
        (c + 1) as u64
    } else {
        u64::MAX
    }
}

/// Expected successor of a sequence number under 16-bit modular
/// wraparound.
pub open spec fn spec_expected_next(last: u16) -> u16 {
    ((last + 1) % 0x10000) as u16
}

/// Whether an arrival with this sequence number counts as anomalous:
/// every packet after the first whose number is not the expected
/// successor.  Duplicates and reordered packets are deliberately not
/// distinguished.
pub open spec fn spec_track_anomalous(info: StreamInfo, seq: u16) -> bool {
    info.packet_count >= 1 && seq != spec_expected_next(info.last_sequence)
}

/// The sequence-tracker transition for one observed sequence number:
/// count the packet, count the anomaly when there is one, and overwrite
/// the stored sequence number unconditionally — the tracker never buffers
/// or corrects order, it only counts.
pub open spec fn spec_track(info: StreamInfo, seq: u16) -> StreamInfo {
    StreamInfo {
        metadata: info.metadata,
        packet_count: spec_saturating_inc(info.packet_count),
        last_sequence: seq,
        out_of_order_count: if spec_track_anomalous(info, seq) {
            spec_saturating_inc(info.out_of_order_count)
        } else {
            info.out_of_order_count
        },
    }
}

/// The diagnostic observation the transition emits, if any.
pub open spec fn spec_track_anomaly(info: StreamInfo, seq: u16) -> Option<SequenceAnomaly> {
    if spec_track_anomalous(info, seq) {
        Some(SequenceAnomaly { expected: spec_expected_next(info.last_sequence), observed: seq })
    } else {
        None
    }
}

/// The summary observation the transition emits, if any: cumulative
/// counters on every thousandth packet.
pub open spec fn spec_track_summary(info: StreamInfo, seq: u16) -> Option<StreamStatsSummary> {
    let next = spec_track(info, seq);
    if next.packet_count % 1000 == 0 {
        Some(
            StreamStatsSummary {
                packet_count: next.packet_count,
                out_of_order_count: next.out_of_order_count,
            },
        )
    } else {
        None
    }
}

/// Index of the first entry carrying the identifier, if any.
pub open spec fn spec_slot_of_id(entries: Seq<StreamInfo>, id: StreamId) -> Option<int>
    decreases entries.len(),
{
    if entries.len() == 0 {
        None
    } else if entries.first().metadata.id == id {
        Some(0)
    } else {
        match spec_slot_of_id(entries.drop_first(), id) {
            Some(i) => Some(i + 1),
            None => None,
        }
    }
}

/// The demultiplexer and per-stream counter registry.
pub struct StreamManager {
    streams: Vec<StreamInfo>,
    ssrc_index: HashMap<u32, usize>,
    reserve_next: u128,
}

impl StreamManager {
    /// The registry's entries, in creation order.
    pub closed spec fn entries(&self) -> Seq<StreamInfo> {
        self.streams@
    }

    /// Entry index registered for a synchronization source, if any.
    pub closed spec fn slot_of(&self, ssrc: u32) -> Option<int> {
        if self.ssrc_index@.contains_key(ssrc) {
            Some(self.ssrc_index@[ssrc] as int)
        } else {
            None
        }
    }

    /// Stream identifier registered for a synchronization source, if any.
    pub open spec fn stream_id_of(&self, ssrc: u32) -> Option<StreamId> {
        match self.slot_of(ssrc) {
            Some(i) => Some(self.entries()[i].metadata.id),
            None => None,
        }
    }

    /// Whether some entry carries the identifier.
    pub open spec fn uses_id(&self, id: StreamId) -> bool {
        exists|i: int| 0 <= i < self.entries().len() && self.entries()[i].metadata.id == id
    }

    /// The registry's internal invariant: every entry carries a distinct
    /// identifier and a distinct synchronization source, the index maps
    /// each source to its entry and nothing else, and the reserved
    /// identifier pool is consistent with the entries drawn from it.
    pub closed spec fn wf(&self) -> bool {
        &&& forall|i: int, j: int|
            0 <= i < j < self.streams@.len() ==> self.streams@[i].metadata.id
                != self.streams@[j].metadata.id
        &&& forall|i: int|
            0 <= i < self.streams@.len() ==> (#[trigger] self.streams@[i].metadata.ssrc) is Some
        &&& forall|i: int, j: int|
            0 <= i < j < self.streams@.len() ==> self.streams@[i].metadata.ssrc
                != self.streams@[j].metadata.ssrc
        &&& forall|i: int|
            0 <= i < self.streams@.len() ==> self.ssrc_index@.contains_key(
                (#[trigger] self.streams@[i].metadata.ssrc)->0,
            ) && self.ssrc_index@[self.streams@[i].metadata.ssrc->0] == i
        &&& forall|k: u32|
            self.ssrc_index@.contains_key(k) ==> (#[trigger] self.ssrc_index@[k])
                < self.streams@.len() && self.streams@[self.ssrc_index@[k] as int].metadata.ssrc
                == Some(k)
        &&& self.reserve_next >= RESERVED_ID_BASE
        &&& self.reserve_next - RESERVED_ID_BASE <= self.streams@.len()
        &&& forall|i: int|
            0 <= i < self.streams@.len() && (#[trigger] self.streams@[i].metadata.id).0
                >= RESERVED_ID_BASE ==> self.streams@[i].metadata.id.0 < self.reserve_next
    }

    /// An empty registry.
    pub fn new() -> (r: Self)
        ensures
            r.wf(),
            r.entries().len() == 0,
            forall|s: u32| r.stream_id_of(s) is None,
    {
        StreamManager {
            streams: Vec::new(),
            ssrc_index: HashMap::new(),
            reserve_next: RESERVED_ID_BASE,
        }
    }

    /// How many streams the registry holds.
    pub fn stream_count(&self) -> (r: usize)
        ensures
            r == self.entries().len(),
    {
        self.streams.len()
    }

    /// Whether some entry carries the identifier.
    fn id_used(&self, id: u128) -> (r: bool)
        ensures
            r == self.uses_id(StreamId(id)),
    {
        let n = self.streams.len();
        let mut k: usize = 0;
        while k < n
            invariant
                k <= n,
                n == self.entries().len(),
                forall|i: int| 0 <= i < k ==> self.entries()[i].metadata.id != StreamId(id),
            decreases n - k,
        {
            if self.streams[k].metadata.id.0 == id {
                return true;
            }
            k = k + 1;
        }
        false
    }

    /// An identifier no current entry carries.  A random draw is tried
    /// first, with its top bit held clear; if it is somehow taken, the
    /// next identifier of the reserved top-bit-set pool is used instead.
    fn fresh_stream_id(&mut self) -> (r: u128)
        requires
            old(self).wf(),
        ensures
            final(self).streams@ == old(self).streams@,
            final(self).ssrc_index@ == old(self).ssrc_index@,
            !old(self).uses_id(StreamId(r)),
            final(self).reserve_next >= RESERVED_ID_BASE,
            final(self).reserve_next - RESERVED_ID_BASE <= old(self).streams@.len() + 1,
            r >= RESERVED_ID_BASE ==> r < final(self).reserve_next,
            forall|i: int|
                0 <= i < old(self).streams@.len() && (#[trigger] old(
                    self,
                ).streams@[i].metadata.id).0 >= RESERVED_ID_BASE ==> old(
                self,
            ).streams@[i].metadata.id.0 < final(self).reserve_next,
    {
        let candidate: u128 = crate::host::random_u128() % RESERVED_ID_BASE;
        if !self.id_used(candidate) {
            return candidate;
        }
        let n = self.streams.len();
        assert(self.reserve_next - RESERVED_ID_BASE <= n);
        let r = self.reserve_next;
        self.reserve_next = self.reserve_next + 1;
        proof {
            if old(self).uses_id(StreamId(r)) {
                let i = choose|i: int|
                    0 <= i < old(self).streams@.len() && old(self).streams@[i].metadata.id
                        == StreamId(r);
                assert(old(self).streams@[i].metadata.id.0 < old(self).reserve_next);
            }
        }
        r
    }
}

/// The contract of `lookup or create`: what the registry's state after
/// the call and the returned identifier say about the state before it.
pub open spec fn spec_lookup_post(
    pre: StreamManager,
    post: StreamManager,
    source_addr: Seq<char>,
    ssrc: u32,
    r: StreamId,
) -> bool {
    &&& post.wf()
    &&& post.stream_id_of(ssrc) == Some(r)
    &&& forall|s: u32| s != ssrc ==> post.stream_id_of(s) == pre.stream_id_of(s)
    &&& (pre.stream_id_of(ssrc) is Some ==> post == pre && Some(r) == pre.stream_id_of(ssrc))
    &&& (pre.stream_id_of(ssrc) is None ==> {
        &&& post.entries().len() == pre.entries().len() + 1
        &&& post.entries().take(pre.entries().len() as int) =~= pre.entries()
        &&& !pre.uses_id(r)
        &&& ({
            let e = post.entries().last();
            &&& e.metadata.id == r
            &&& e.metadata.ssrc == Some(ssrc)
            &&& e.metadata.state == StreamState::Active
            &&& e.metadata.source_addr@ == source_addr
            &&& e.metadata.codec@ == Seq::<char>::empty()
            &&& e.metadata.call_id is None
            &&& e.packet_count == 0
            &&& e.last_sequence == 0
            &&& e.out_of_order_count == 0
        })
    })
}

impl StreamManager {
    /// Looks up the stream registered for a synchronization source, or
    /// creates one: on the first packet of an unseen source a fresh
    /// identifier is drawn, metadata is recorded in state `Active`, and
    /// the entry is indexed by the source for the registry's lifetime.
    pub fn get_or_create_stream(&mut self, source_addr: &str, ssrc: u32) -> (r: StreamId)
        requires
            old(self).wf(),
        ensures
            spec_lookup_post(*old(self), *final(self), source_addr@, ssrc, r),
    {
        let existing: Option<usize> = match self.ssrc_index.get(&ssrc) {
            Some(idx) => Some(*idx),
            None => None,
        };
        match existing {
            Some(idx) => {
                let id = self.streams[idx].metadata.id;
                return id;
            },
            None => {},
        }

        let id = self.fresh_stream_id();
        let idx = self.streams.len();
        let metadata = StreamMetadata {
            id: StreamId(id),
            source_addr: source_addr.to_owned(),
            created_at: crate::host::now_millis(),
            state: StreamState::Active,
            codec: String::new(),
            ssrc: Some(ssrc),
            call_id: None,
        };
        self.streams.push(
            StreamInfo { metadata, packet_count: 0, last_sequence: 0, out_of_order_count: 0 },
        );
        self.ssrc_index.insert(ssrc, idx);
        proof {
            assert(self.streams@.take(old(self).streams@.len() as int) =~= old(self).streams@);
            assert forall|s: u32| s != ssrc implies self.stream_id_of(s) == old(self).stream_id_of(
                s,
            ) by {}
            assert(self.wf());
        }
        StreamId(id)
    }
}

/// For a fixed synchronization source, looking up or creating is
/// idempotent: a second call right after a first returns the identical
/// stream identifier, and the source stays mapped to it.
pub proof fn lemma_lookup_or_create_idempotent(
    s0: StreamManager,
    s1: StreamManager,
    s2: StreamManager,
    addr1: Seq<char>,
    addr2: Seq<char>,
    ssrc: u32,
    r1: StreamId,
    r2: StreamId,
)
    requires
        spec_lookup_post(s0, s1, addr1, ssrc, r1),
        spec_lookup_post(s1, s2, addr2, ssrc, r2),
    ensures
        r2 == r1,
        s2.stream_id_of(ssrc) == Some(r1),
{
}

/// The contract of processing one chunk: what the registry's state after
/// the call and the reported outcome say about the state before it.
pub open spec fn spec_process_post(
    pre: StreamManager,
    post: StreamManager,
    stream_id: StreamId,
    seq: u16,
    r: ProcessOutcome,
) -> bool {
    &&& post.wf()
    &&& match spec_slot_of_id(pre.entries(), stream_id) {
        None => {
            &&& post == pre
            &&& r == (ProcessOutcome { known_stream: false, anomaly: None, summary: None })
        },
        Some(i) => {
            &&& post.entries() =~= pre.entries().update(i, spec_track(pre.entries()[i], seq))
            &&& forall|s: u32| post.stream_id_of(s) == pre.stream_id_of(s)
            &&& r.known_stream == true
            &&& r.anomaly == spec_track_anomaly(pre.entries()[i], seq)
            &&& r.summary == spec_track_summary(pre.entries()[i], seq)
        },
    }
}

impl StreamManager {
    /// Feeds one decoded chunk to the stream's sequence tracker: counts
    /// the packet, counts an anomaly when the 16-bit wire sequence number
    /// is not the expected successor of the stored one under modular
    /// wraparound, overwrites the stored number unconditionally, and
    /// reports the observations.  A chunk for an unknown stream
    /// identifier changes nothing.
    pub fn process_audio_chunk(&mut self, stream_id: StreamId, chunk: &AudioChunk) -> (r:
        ProcessOutcome)
        requires
            old(self).wf(),
        ensures
            spec_process_post(
                *old(self),
                *final(self),
                stream_id,
                (chunk.sequence_number % 0x10000) as u16,
                r,
            ),
    {
        let seq: u16 = (chunk.sequence_number % 0x10000) as u16;
        match self.find_slot(&stream_id) {
            None => ProcessOutcome { known_stream: false, anomaly: None, summary: None },
            Some(k) => {
                proof {
                    lemma_slot_of_id_ge_zero(old(self).entries(), stream_id);
                }
                let info = &mut self.streams[k];
                let prior_count = info.packet_count;
                let anomaly: Option<SequenceAnomaly>;
                if prior_count >= 1 {
                    let expected: u16 = if info.last_sequence == 0xFFFF {
                        0
                    } else {
                        info.last_sequence + 1
                    };
                    if seq != expected {
                        anomaly = Some(SequenceAnomaly { expected, observed: seq });
                        if info.out_of_order_count < u64::MAX {
                            info.out_of_order_count = info.out_of_order_count + 1;
                        }
                    } else {
                        anomaly = None;
                    }
                } else {
                    anomaly = None;
                }
                if info.packet_count < u64::MAX {
                    info.packet_count = info.packet_count + 1;
                }
                info.last_sequence = seq;
                let summary: Option<StreamStatsSummary> = if info.packet_count % 1000 == 0 {
                    Some(
                        StreamStatsSummary {
                            packet_count: info.packet_count,
                            out_of_order_count: info.out_of_order_count,
                        },
                    )
                } else {
                    None
                };
                proof {
                    assert(self.entries() =~= old(self).entries().update(
                        k as int,
                        spec_track(old(self).entries()[k as int], seq),
                    ));
                    assert forall|i: int|
                        0 <= i < self.entries().len() implies self.entries()[i].metadata == old(
                        self,
                    ).entries()[i].metadata by {
                        if i != k as int {
                            assert(self.entries()[i] == old(self).entries()[i]);
                        }
                    }
                    assert forall|s: u32| self.stream_id_of(s) == old(self).stream_id_of(
                        s,
                    ) by {
                        if self.ssrc_index@.contains_key(s) {
                            assert(old(self).ssrc_index@.contains_key(s));
                            let i = old(self).ssrc_index@[s] as int;
                            assert(i < old(self).entries().len());
                            assert(self.entries()[i].metadata == old(self).entries()[i].metadata);
                        }
                    }
                    assert(self.wf());
                    assert(anomaly == spec_track_anomaly(old(self).entries()[k as int], seq));
                    assert(summary == spec_track_summary(old(self).entries()[k as int], seq));
                }
                ProcessOutcome { known_stream: true, anomaly, summary }
            },
        }
    }

    /// Index of the first entry carrying the identifier, if any.
    fn find_slot(&self, stream_id: &StreamId) -> (r: Option<usize>)
        ensures
            match r {
                Some(k) => spec_slot_of_id(self.entries(), *stream_id) == Some(k as int),
                None => spec_slot_of_id(self.entries(), *stream_id) is None,
            },
    {
        let n = self.streams.len();
        let mut k: usize = 0;
        while k < n
            invariant
                k <= n,
                n == self.entries().len(),
                forall|i: int| 0 <= i < k ==> self.entries()[i].metadata.id != *stream_id,
            decreases n - k,
        {
            if self.streams[k].metadata.id == *stream_id {
                proof {
                    lemma_slot_of_id_found(self.entries(), *stream_id, k as int);
                }
                return Some(k);
            }
            k = k + 1;
        }
        proof {
            lemma_slot_of_id_skip(self.entries(), *stream_id, n as int);
        }
        None
    }

    /// The recorded metadata of a stream, if the identifier is known.
    pub fn get_stream_metadata(&self, stream_id: &StreamId) -> (r: Option<&StreamMetadata>)
        ensures
            match r {
                Some(m) => spec_slot_of_id(self.entries(), *stream_id) matches Some(i) && *m
                    == self.entries()[i].metadata,
                None => spec_slot_of_id(self.entries(), *stream_id) is None,
            },
    {
        match self.find_slot(stream_id) {
            None => None,
            Some(k) => {
                proof {
                    lemma_slot_of_id_ge_zero(self.entries(), *stream_id);
                }
                Some(&self.streams[k].metadata)
            },
        }
    }

    /// A snapshot of a stream's runtime counters, if the identifier is
    /// known.
    pub fn stream_stats(&self, stream_id: &StreamId) -> (r: Option<TrackerSnapshot>)
        ensures
            match r {
                Some(s) => spec_slot_of_id(self.entries(), *stream_id) matches Some(i) && s == (
                TrackerSnapshot {
                    packet_count: self.entries()[i].packet_count,
                    last_sequence: self.entries()[i].last_sequence,
                    out_of_order_count: self.entries()[i].out_of_order_count,
                }),
                None => spec_slot_of_id(self.entries(), *stream_id) is None,
            },
    {
        match self.find_slot(stream_id) {
            None => None,
            Some(k) => {
                proof {
                    lemma_slot_of_id_ge_zero(self.entries(), *stream_id);
                }
                let info = &self.streams[k];
                Some(
                    TrackerSnapshot {
                        packet_count: info.packet_count,
                        last_sequence: info.last_sequence,
                        out_of_order_count: info.out_of_order_count,
                    },
                )
            },
        }
    }
}

/// When the first `k` entries do not carry the identifier, the slot of
/// the identifier is not among them.
proof fn lemma_slot_of_id_skip(entries: Seq<StreamInfo>, id: StreamId, k: int)
    requires
        0 <= k <= entries.len(),
        forall|i: int| 0 <= i < k ==> entries[i].metadata.id != id,
    ensures
        spec_slot_of_id(entries, id) matches Some(i) ==> k <= i < entries.len(),
        k == entries.len() ==> spec_slot_of_id(entries, id) is None,
    decreases entries.len(),
{
    if entries.len() > 0 && k > 0 {
        lemma_slot_of_id_skip(entries.drop_first(), id, k - 1);
    } else if entries.len() > 0 {
        lemma_slot_of_id_ge_zero(entries.drop_first(), id);
    }
}

/// A found slot is never negative.
proof fn lemma_slot_of_id_ge_zero(entries: Seq<StreamInfo>, id: StreamId)
    ensures
        spec_slot_of_id(entries, id) matches Some(i) ==> 0 <= i < entries.len(),
    decreases entries.len(),
{
    if entries.len() > 0 {
        lemma_slot_of_id_ge_zero(entries.drop_first(), id);
    }
}

/// When the first `k` entries do not carry the identifier and entry `k`
/// does, the slot of the identifier is exactly `k`.
proof fn lemma_slot_of_id_found(entries: Seq<StreamInfo>, id: StreamId, k: int)
    requires
        0 <= k < entries.len(),
        forall|i: int| 0 <= i < k ==> entries[i].metadata.id != id,
        entries[k].metadata.id == id,
    ensures
        spec_slot_of_id(entries, id) == Some(k),
    decreases k,
{
    if k > 0 {
        lemma_slot_of_id_found(entries.drop_first(), id, k - 1);
    }
}

/// The entry after feeding `n` consecutive sequence numbers, starting at
/// `start` and counting up under 16-bit modular wraparound.
pub open spec fn spec_feed_consecutive(info: StreamInfo, start: u16, n: nat) -> StreamInfo
    decreases n,
{
    if n == 0 {
        info
    } else {
        spec_feed_consecutive(spec_track(info, start), spec_expected_next(start), (n - 1) as nat)
    }
}

/// Feeding consecutive sequence numbers to a stream that is already past
/// its first packet, starting exactly at the expected successor, counts
/// no anomaly and counts every packet.
proof fn lemma_in_order_feed_preserves(info: StreamInfo, start: u16, n: nat)
    requires
        info.packet_count >= 1,
        info.packet_count + n <= u64::MAX,
        start == spec_expected_next(info.last_sequence),
    ensures
        spec_feed_consecutive(info, start, n).out_of_order_count == info.out_of_order_count,
        spec_feed_consecutive(info, start, n).packet_count == info.packet_count + n,
    decreases n,
{
    if n > 0 {
        let next = spec_track(info, start);
        assert(!spec_track_anomalous(info, start));
        lemma_in_order_feed_preserves(next, spec_expected_next(start), (n - 1) as nat);
    }
}

/// Feeding any number of sequence numbers in consecutive order to a
/// fresh stream entry never counts an anomaly: after the whole run the
/// out-of-order count is still zero and every packet was counted.
/// Wraparound is included: the successor of 65535 is 0.
pub proof fn lemma_in_order_feed_counts_no_anomaly(info: StreamInfo, start: u16, n: nat)
    requires
        info.packet_count == 0,
        info.out_of_order_count == 0,
        n <= u64::MAX,
    ensures
        spec_feed_consecutive(info, start, n).out_of_order_count == 0,
        spec_feed_consecutive(info, start, n).packet_count == n,
{
    if n > 0 {
        let first = spec_track(info, start);
        assert(!spec_track_anomalous(info, start));
        assert(first.packet_count == 1 && first.out_of_order_count == 0);
        assert(first.last_sequence == start);
        lemma_in_order_feed_preserves(first, spec_expected_next(start), (n - 1) as nat);
    }
}

/// Two distinct synchronization sources never share a stream identifier.
pub proof fn lemma_distinct_sources_distinct_ids(m: &StreamManager, s1: u32, s2: u32)
    requires
        m.wf(),
        s1 != s2,
        m.stream_id_of(s1) is Some,
        m.stream_id_of(s2) is Some,
    ensures
        m.stream_id_of(s1) != m.stream_id_of(s2),
{
    let i1 = m.slot_of(s1)->0;
    let i2 = m.slot_of(s2)->0;
    assert(m.entries()[i1].metadata.ssrc == Some(s1));
    assert(m.entries()[i2].metadata.ssrc == Some(s2));
    assert(i1 != i2);
}

} // verus!
