//! Per-chunk latency instrumentation: an append-only list of processing
//! stages, closed last-opened-first.

use vstd::prelude::*;

use crate::stream::StreamId;

verus! {

/// Optional counters a stage may attach.
#[derive(Debug, Clone)]
pub struct StageMetrics {
    pub items_processed: u64,
    pub bytes_processed: u64,
    pub errors: u64,
    /// Free-form metrics blob, carried as text.
    pub custom: String,
}

/// One processing stage: who ran it, when it started, and, once closed,
/// when it ended.
#[derive(Debug, Clone)]
pub struct ProcessingStage {
    pub name: String,
    pub component: String,
    /// Start time, in milliseconds since the Unix epoch.
    pub start_time: i64,
    /// End time; `None` while the stage is still open.
    pub end_time: Option<i64>,
    pub metrics: Option<StageMetrics>,
}

/// Latency instrumentation attached to one audio chunk.
#[derive(Debug, Clone)]
pub struct LatencyMetadata {
    pub stream_id: StreamId,
    /// Fresh unique identifier of the chunk itself.
    pub chunk_id: u128,
    /// Ingestion time, in milliseconds since the Unix epoch.
    pub ingestion_time: i64,
    /// Ordered, append-only list of processing stages.
    pub stages: Vec<ProcessingStage>,
}

/// The magnitude of the difference of two times, defensively
/// non-negative under clock skew.
pub open spec fn spec_abs_diff(a: i64, b: i64) -> u64 {
    if a >= b {
        (a - b) as u64
    } else {
        (b - a) as u64
    }
}

/// Index of the most recently opened still-open stage, if any.
pub open spec fn spec_last_open_index(stages: Seq<ProcessingStage>) -> Option<int>
    decreases stages.len(),
{
    if stages.len() == 0 {
        None
    } else if stages.last().end_time is None {
        Some(stages.len() - 1)
    } else {
        spec_last_open_index(stages.drop_last())
    }
}

/// Duration of the first closed stage with the given name, if any.
pub open spec fn spec_stage_latency(stages: Seq<ProcessingStage>, name: Seq<char>) -> Option<u64>
    decreases stages.len(),
{
    if stages.len() == 0 {
        None
    } else if stages.first().name@ == name && stages.first().end_time is Some {
        Some(spec_abs_diff(stages.first().end_time->0, stages.first().start_time))
    } else {
        spec_stage_latency(stages.drop_first(), name)
    }
}

/// `post` is `pre` with one open stage appended, named and attributed as
/// given and started at time `t`.
pub open spec fn spec_stage_started(
    pre: LatencyMetadata,
    post: LatencyMetadata,
    name: Seq<char>,
    component: Seq<char>,
    t: i64,
) -> bool {
    &&& post.stream_id == pre.stream_id
    &&& post.chunk_id == pre.chunk_id
    &&& post.ingestion_time == pre.ingestion_time
    &&& post.stages@.len() == pre.stages@.len() + 1
    &&& post.stages@.take(pre.stages@.len() as int) =~= pre.stages@
    &&& post.stages@.last().name@ == name
    &&& post.stages@.last().component@ == component
    &&& post.stages@.last().start_time == t
    &&& post.stages@.last().end_time is None
    &&& post.stages@.last().metrics is None
}

/// `post` is `pre` with its most recently opened still-open stage closed
/// at time `t`; when no stage is open, `post` is `pre` unchanged.
pub open spec fn spec_stage_ended(pre: LatencyMetadata, post: LatencyMetadata, t: i64) -> bool {
    &&& post.stream_id == pre.stream_id
    &&& post.chunk_id == pre.chunk_id
    &&& post.ingestion_time == pre.ingestion_time
    &&& match spec_last_open_index(pre.stages@) {
        None => post.stages@ == pre.stages@,
        Some(i) => post.stages@ =~= pre.stages@.update(
            i,
            (ProcessingStage { end_time: Some(t), ..pre.stages@[i] }),
        ),
    }
}

/// When every stage at or past index `k` is closed, the most recently
/// opened still-open stage lies in the prefix before `k`.
proof fn lemma_last_open_index_skip_closed(stages: Seq<ProcessingStage>, k: int)
    requires
        0 <= k <= stages.len(),
        forall|j: int| k <= j < stages.len() ==> stages[j].end_time is Some,
    ensures
        spec_last_open_index(stages) == spec_last_open_index(stages.take(k)),
    decreases stages.len() - k,
{
    if k == stages.len() {
        assert(stages.take(k) =~= stages);
    } else {
        assert(stages.last().end_time is Some);
        lemma_last_open_index_skip_closed(stages.drop_last(), k);
        assert(stages.drop_last().take(k) =~= stages.take(k));
    }
}

impl LatencyMetadata {
    /// Instrumentation for one chunk, with every field given.
    pub fn new_at(stream_id: StreamId, chunk_id: u128, ingestion_time: i64) -> (r: Self)
        ensures
            r.stream_id == stream_id,
            r.chunk_id == chunk_id,
            r.ingestion_time == ingestion_time,
            r.stages@ == Seq::<ProcessingStage>::empty(),
    {
        LatencyMetadata { stream_id, chunk_id, ingestion_time, stages: Vec::new() }
    }

    /// Instrumentation for one chunk: a fresh random chunk identifier,
    /// the current time as ingestion time, and no stages yet.
    pub fn new(stream_id: StreamId) -> (r: Self)
        ensures
            r.stream_id == stream_id,
            r.stages@ == Seq::<ProcessingStage>::empty(),
    {
        LatencyMetadata::new_at(stream_id, crate::host::random_u128(), crate::host::now_millis())
    }

    /// Appends a new open stage started at the given time.
    pub fn start_stage_at(&mut self, name: &str, component: &str, now_ms: i64)
        ensures
            spec_stage_started(*old(self), *final(self), name@, component@, now_ms),
    {
        self.stages.push(
            ProcessingStage {
                name: name.to_owned(),
                component: component.to_owned(),
                start_time: now_ms,
                end_time: None,
                metrics: None,
            },
        );
        assert(self.stages@.take(old(self).stages@.len() as int) =~= old(self).stages@);
    }

    /// Appends a new open stage started at the current time.
    pub fn start_stage(&mut self, name: &str, component: &str)
        ensures
            exists|t: i64| spec_stage_started(*old(self), *final(self), name@, component@, t),
    {
        let now = crate::host::now_millis();
        self.start_stage_at(name, component, now);
    }

    /// Closes the most recently opened still-open stage by stamping the
    /// given end time; with no open stage this is a no-op, never an error.
    pub fn end_stage_at(&mut self, now_ms: i64)
        ensures
            spec_stage_ended(*old(self), *final(self), now_ms),
    {
        let mut k: usize = self.stages.len();
        while k > 0
            invariant
                k <= self.stages@.len(),
                *self == *old(self),
                forall|j: int| k <= j < self.stages@.len() ==> self.stages@[j].end_time is Some,
            decreases k,
        {
            if self.stages[k - 1].end_time.is_none() {
                proof {
                    lemma_last_open_index_skip_closed(self.stages@, k as int);
                    assert(self.stages@.take(k as int).last() == self.stages@[k - 1]);
                    assert(spec_last_open_index(self.stages@) == Some(k - 1));
                }
                let stage = &mut self.stages[k - 1];
                stage.end_time = Some(now_ms);
                assert(self.stages@ =~= old(self).stages@.update(
                    k - 1,
                    (ProcessingStage { end_time: Some(now_ms), ..old(self).stages@[k - 1] }),
                ));
                return ;
            }
            k = k - 1;
        }
        proof {
            lemma_last_open_index_skip_closed(self.stages@, 0);
            assert(self.stages@.take(0) =~= Seq::<ProcessingStage>::empty());
            assert(spec_last_open_index(self.stages@) is None);
        }
    }

    /// Closes the most recently opened still-open stage at the current
    /// time; with no open stage this is a no-op, never an error.
    pub fn end_stage(&mut self)
        ensures
            exists|t: i64| spec_stage_ended(*old(self), *final(self), t),
    {
        let now = crate::host::now_millis();
        self.end_stage_at(now);
    }

    /// Elapsed time from ingestion to the given time, in milliseconds,
    /// absolute-valued to tolerate clock skew.
    pub fn total_latency_at(&self, now_ms: i64) -> (r: u64)
        ensures
            r == spec_abs_diff(now_ms, self.ingestion_time),
    {
        let diff: i128 = now_ms as i128 - self.ingestion_time as i128;
        if diff >= 0 {
            diff as u64
        } else {
            (-diff) as u64
        }
    }

    /// Elapsed wall-clock time from ingestion to now, in milliseconds,
    /// absolute-valued to tolerate clock skew.
    pub fn total_latency(&self) -> (r: u64)
        ensures
            exists|t: i64| r == spec_abs_diff(t, self.ingestion_time),
    {
        let now = crate::host::now_millis();
        self.total_latency_at(now)
    }

    /// Duration of the first closed stage with the given name, in
    /// milliseconds; `None` while no such stage is closed.
    pub fn stage_latency(&self, stage_name: &str) -> (r: Option<u64>)
        ensures
            r == spec_stage_latency(self.stages@, stage_name@),
    {
        let wanted: String = stage_name.to_owned();
        let n = self.stages.len();
        let mut k: usize = 0;
        assert(self.stages@.skip(0) =~= self.stages@);
        while k < n
            invariant
                k <= n,
                n == self.stages@.len(),
                wanted@ == stage_name@,
                spec_stage_latency(self.stages@, stage_name@) == spec_stage_latency(
                    self.stages@.skip(k as int),
                    stage_name@,
                ),
            decreases n - k,
        {
            proof {
                assert(self.stages@.skip(k as int).first() == self.stages@[k as int]);
                assert(self.stages@.skip(k as int).drop_first() =~= self.stages@.skip(k + 1));
            }
            let stage = &self.stages[k];
            if stage.name.eq(&wanted) {
                match stage.end_time {
                    Some(end) => {
                        let diff: i128 = end as i128 - stage.start_time as i128;
                        let d: u64 = if diff >= 0 {
                            diff as u64
                        } else {
                            (-diff) as u64
                        };
                        return Some(d);
                    },
                    None => {},
                }
            }
            k = k + 1;
        }
        None
    }
}

/// Opening a stage and then closing it with a clock that has not gone
/// backwards closes exactly that stage, with its end time at or after its
/// start time; and when no other stage bears the name, the recorded stage
/// latency is exactly the elapsed time.
pub proof fn lemma_stage_pairing(
    m0: LatencyMetadata,
    m1: LatencyMetadata,
    m2: LatencyMetadata,
    name: Seq<char>,
    component: Seq<char>,
    t1: i64,
    t2: i64,
)
    requires
        spec_stage_started(m0, m1, name, component, t1),
        spec_stage_ended(m1, m2, t2),
        t1 <= t2,
    ensures
        m2.stages@.len() == m0.stages@.len() + 1,
        m2.stages@.last().name@ == name,
        m2.stages@.last().start_time == t1,
        m2.stages@.last().end_time == Some(t2),
        m2.stages@.last().end_time->0 >= m2.stages@.last().start_time,
        (forall|j: int| 0 <= j < m0.stages@.len() ==> m0.stages@[j].name@ != name)
            ==> spec_stage_latency(m2.stages@, name) == Some((t2 - t1) as u64),
{
    let n = m0.stages@.len() as int;
    assert(m1.stages@.last().end_time is None);
    assert(spec_last_open_index(m1.stages@) == Some(n));
    assert(m2.stages@ =~= m1.stages@.update(
        n,
        (ProcessingStage { end_time: Some(t2), ..m1.stages@[n] }),
    ));
    assert(m2.stages@.last().end_time == Some(t2));
    if forall|j: int| 0 <= j < m0.stages@.len() ==> m0.stages@[j].name@ != name {
        assert forall|j: int| 0 <= j < n implies m2.stages@[j].name@ != name by {
            assert(m2.stages@[j] == m1.stages@[j]);
            assert(m1.stages@[j] == m1.stages@.take(n)[j]);
        }
        lemma_stage_latency_first_match(m2.stages@, name, n);
        assert(spec_abs_diff(t2, t1) == (t2 - t1) as u64);
    }
}

/// When no stage before index `i` bears the name and stage `i` is closed
/// and bears it, the stage latency is read from stage `i`.
proof fn lemma_stage_latency_first_match(stages: Seq<ProcessingStage>, name: Seq<char>, i: int)
    requires
        0 <= i < stages.len(),
        forall|j: int| 0 <= j < i ==> stages[j].name@ != name,
        stages[i].name@ == name,
        stages[i].end_time is Some,
    ensures
        spec_stage_latency(stages, name) == Some(
            spec_abs_diff(stages[i].end_time->0, stages[i].start_time),
        ),
    decreases i,
{
    if i == 0 {
    } else {
        assert(stages.first().name@ != name);
        lemma_stage_latency_first_match(stages.drop_first(), name, i - 1);
    }
}

} // verus!
