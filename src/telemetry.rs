//! Telemetry: the metrics document of one operation, and the retry policy
//! for shipping it to the metrics backend.
//!
//! Each document is shipped with a bounded number of attempts. A transient
//! failure is retried after an exponentially growing pause; once the attempt
//! ceiling is reached the document is dropped and counted as dropped.

use vstd::prelude::*;
use crate::measure::Measurement;
use crate::workload::Workload;

verus! {

/// Most attempts that a document may be given.
pub const MAX_ATTEMPTS: u32 = 16;

/// Pause before the first retry, in milliseconds.
pub const BASE_BACKOFF_MS: u64 = 50;

pub open spec fn pow2(n: nat) -> nat
    decreases n,
{
    if n == 0 {
        1
    } else {
        2 * pow2((n - 1) as nat)
    }
}

proof fn lemma_pow2_bound(n: nat)
    requires
        n <= 15,
    ensures
        pow2(n) <= 32768,
    decreases 15 - n,
{
    if n < 15 {
        lemma_pow2_bound(n + 1);
    } else {
        reveal_with_fuel(pow2, 16);
    }
}

/// Pause before attempt number `attempt + 1`, after `attempt` failures.
pub open spec fn backoff_spec(attempt: nat) -> nat {
    BASE_BACKOFF_MS as nat * pow2((attempt - 1) as nat)
}

/// What to do after an attempt to ship a document.
#[derive(Clone, Copy, Debug, PartialEq, Eq, Structural)]
pub enum EmitAction {
    /// The backend took the document.
    Recorded,
    /// Try again after the pause.
    Retry { backoff_ms: u64 },
    /// The attempt ceiling is reached: the document is dropped.
    Dropped,
}

/// The action after attempt number `attempts + 1` of a document whose
/// ceiling is `ceiling`.
pub open spec fn emit_step(attempts: nat, ceiling: nat, ok: bool) -> EmitAction {
    if ok {
        EmitAction::Recorded
    } else if attempts + 1 >= ceiling {
        EmitAction::Dropped
    } else {
        EmitAction::Retry { backoff_ms: backoff_spec(attempts + 1) as u64 }
    }
}

/// Documents recorded and dropped, in that order, when the attempts of one
/// document have the outcomes `outcomes`, `attempts` attempts having failed
/// before. An unfinished emission counts as neither.
pub open spec fn emission_counts(attempts: nat, ceiling: nat, outcomes: Seq<bool>) -> (nat, nat)
    decreases outcomes.len(),
{
    if outcomes.len() == 0 {
        (0, 0)
    } else {
        match emit_step(attempts, ceiling, outcomes[0]) {
            EmitAction::Recorded => (1, 0),
            EmitAction::Dropped => (0, 1),
            EmitAction::Retry { .. } => emission_counts(attempts + 1, ceiling, outcomes.drop_first()),
        }
    }
}

/// A transient failure that clears within the attempt ceiling yields exactly
/// one recorded document and no drop; failures on every attempt up to the
/// ceiling yield no recorded document and one drop.
pub proof fn lemma_retry_ceiling(ceiling: nat, outcomes: Seq<bool>)
    requires
        1 <= ceiling,
    ensures
        (exists|k: int|
            0 <= k < ceiling && k < outcomes.len() && #[trigger] outcomes[k]
                && forall|j: int| 0 <= j < k ==> !outcomes[j])
            ==> emission_counts(0, ceiling, outcomes) == (1nat, 0nat),
        (outcomes.len() >= ceiling && forall|j: int| 0 <= j < ceiling ==> !#[trigger] outcomes[j])
            ==> emission_counts(0, ceiling, outcomes) == (0nat, 1nat),
{
    lemma_retry_from(0, ceiling, outcomes);
}

proof fn lemma_retry_from(a: nat, ceiling: nat, outcomes: Seq<bool>)
    requires
        a < ceiling,
    ensures
        (exists|k: int|
            0 <= k < ceiling - a && k < outcomes.len() && #[trigger] outcomes[k]
                && forall|j: int| 0 <= j < k ==> !outcomes[j])
            ==> emission_counts(a, ceiling, outcomes) == (1nat, 0nat),
        (outcomes.len() >= ceiling - a && forall|j: int| 0 <= j < ceiling - a ==> !#[trigger] outcomes[j])
            ==> emission_counts(a, ceiling, outcomes) == (0nat, 1nat),
    decreases outcomes.len(),
{
    if outcomes.len() > 0 && !outcomes[0] && a + 1 < ceiling {
        let rest = outcomes.drop_first();
        lemma_retry_from(a + 1, ceiling, rest);
        if exists|k: int|
            0 <= k < ceiling - a && k < outcomes.len() && #[trigger] outcomes[k]
                && forall|j: int| 0 <= j < k ==> !outcomes[j] {
            let k = choose|k: int|
                0 <= k < ceiling - a && k < outcomes.len() && #[trigger] outcomes[k]
                    && forall|j: int| 0 <= j < k ==> !outcomes[j];
            assert(k >= 1);
            assert(rest[k - 1]);
            assert forall|j: int| 0 <= j < k - 1 implies !rest[j] by {
                assert(!outcomes[j + 1]);
            }
        }
        if outcomes.len() >= ceiling - a && forall|j: int| 0 <= j < ceiling - a ==> !#[trigger] outcomes[j] {
            assert forall|j: int| 0 <= j < ceiling - (a + 1) implies !#[trigger] rest[j] by {
                assert(!outcomes[j + 1]);
            }
        }
    } else if outcomes.len() > 0 && !outcomes[0] {
        if exists|k: int|
            0 <= k < ceiling - a && k < outcomes.len() && #[trigger] outcomes[k]
                && forall|j: int| 0 <= j < k ==> !outcomes[j] {
            let k = choose|k: int|
                0 <= k < ceiling - a && k < outcomes.len() && #[trigger] outcomes[k]
                    && forall|j: int| 0 <= j < k ==> !outcomes[j];
            assert(k == 0);
        }
    } else if outcomes.len() == 0 {
    }
}

/// Retry state of one document.
pub struct Emission {
    attempts: u32,
    ceiling: u32,
    finished: bool,
}

impl Emission {
    pub closed spec fn attempts(&self) -> nat {
        self.attempts as nat
    }

    pub closed spec fn ceiling(&self) -> nat {
        self.ceiling as nat
    }

    /// Whether the document was recorded or dropped.
    pub closed spec fn finished(&self) -> bool {
        self.finished
    }

    pub closed spec fn wf(&self) -> bool {
        1 <= self.ceiling <= MAX_ATTEMPTS && self.attempts < self.ceiling
    }

    /// A document not tried yet, to be given at most `ceiling` attempts.
    pub fn new(ceiling: u32) -> (e: Emission)
        requires
            1 <= ceiling <= MAX_ATTEMPTS,
        ensures
            e.wf(),
            e.attempts() == 0,
            e.ceiling() == ceiling,
            !e.finished(),
    {
        Emission { attempts: 0, ceiling, finished: false }
    }

    /// Takes the outcome of one attempt and says what comes next.
    pub fn record_attempt(&mut self, ok: bool) -> (action: EmitAction)
        requires
            old(self).wf(),
            !old(self).finished(),
        ensures
            action == emit_step(old(self).attempts(), old(self).ceiling(), ok),
            final(self).ceiling() == old(self).ceiling(),
            final(self).finished() == !(action is Retry),
            action is Retry ==> final(self).attempts() == old(self).attempts() + 1 && final(self).wf(),
    {
        if ok {
            self.finished = true;
            EmitAction::Recorded
        } else if self.attempts + 1 >= self.ceiling {
            self.finished = true;
            EmitAction::Dropped
        } else {
            self.attempts = self.attempts + 1;
            let backoff = backoff_ms(self.attempts);
            EmitAction::Retry { backoff_ms: backoff }
        }
    }
}

/// Pause before the next attempt after `attempt` failures.
pub fn backoff_ms(attempt: u32) -> (r: u64)
    requires
        1 <= attempt < MAX_ATTEMPTS,
    ensures
        r as nat == backoff_spec(attempt as nat),
{
    let mut p: u64 = 1;
    let mut i: u32 = 1;
    while i < attempt
        invariant
            1 <= i <= attempt < MAX_ATTEMPTS,
            p as nat == pow2((i - 1) as nat),
        decreases attempt - i,
    {
        proof {
            lemma_pow2_bound((i - 1) as nat);
        }
        p = p * 2;
        i = i + 1;
    }
    proof {
        lemma_pow2_bound((i - 1) as nat);
    }
    BASE_BACKOFF_MS * p
}

/// Counts of documents over a whole run.
#[derive(Clone, Copy, Debug, PartialEq, Eq)]
pub struct TelemetryStats {
    pub recorded: u64,
    pub dropped: u64,
}

impl TelemetryStats {
    pub fn new() -> (s: TelemetryStats)
        ensures
            s.recorded == 0,
            s.dropped == 0,
    {
        TelemetryStats { recorded: 0, dropped: 0 }
    }

    /// Counts the final action of one document.
    pub fn apply(&mut self, action: EmitAction)
        requires
            old(self).recorded < u64::MAX,
            old(self).dropped < u64::MAX,
        ensures
            final(self).recorded == old(self).recorded + if action is Recorded { 1int } else { 0int },
            final(self).dropped == old(self).dropped + if action is Dropped { 1int } else { 0int },
    {
        match action {
            EmitAction::Recorded => self.recorded = self.recorded + 1,
            EmitAction::Dropped => self.dropped = self.dropped + 1,
            EmitAction::Retry { .. } => {},
        }
    }
}

/// Relies on chrono's `Utc::now` and `DateTime::timestamp_millis`: the wall
/// clock in milliseconds since the Unix epoch. Nothing is stated of the
/// value, which depends on when it is read.
#[verifier::external_body]
fn create_timestamp() -> (r: i64) {
    chrono::Utc::now().timestamp_millis()
}

/// The telemetry record of one completed or failed operation.
#[derive(Clone, Debug)]
pub struct MetricsDocument {
    /// Latency in nanoseconds, from the monotonic clock.
    pub latency_ns: u64,
    pub exceeded_threshold: bool,
    pub failed: bool,
    /// Wall-clock time of the record, in milliseconds since the epoch.
    pub timestamp_ms: i64,
    pub workload: Workload,
    pub object_size_label: String,
    pub size_bytes: u64,
    /// Bytes per second.
    pub throughput_bps: u128,
    pub object_key: String,
    pub source: String,
}

impl MetricsDocument {
    /// The record of `m`, stamped `timestamp_ms`.
    pub fn new(
        m: &Measurement,
        workload: Workload,
        object_size_label: String,
        object_key: String,
        source: String,
        timestamp_ms: i64,
    ) -> (d: MetricsDocument)
        ensures
            d.latency_ns == m.sample.duration_ns,
            d.exceeded_threshold == m.sample.exceeded_threshold,
            d.failed == m.sample.failed,
            d.timestamp_ms == timestamp_ms,
            d.workload == workload,
            d.object_size_label == object_size_label,
            d.size_bytes == m.size_bytes,
            d.throughput_bps == m.throughput_bps,
            d.object_key == object_key,
            d.source == source,
    {
        MetricsDocument {
            latency_ns: m.sample.duration_ns,
            exceeded_threshold: m.sample.exceeded_threshold,
            failed: m.sample.failed,
            timestamp_ms,
            workload,
            object_size_label,
            size_bytes: m.size_bytes,
            throughput_bps: m.throughput_bps,
            object_key,
            source,
        }
    }

    /// The record of `m`, stamped with the wall clock now.
    pub fn stamped(
        m: &Measurement,
        workload: Workload,
        object_size_label: String,
        object_key: String,
        source: String,
    ) -> (d: MetricsDocument)
        ensures
            d.latency_ns == m.sample.duration_ns,
            d.exceeded_threshold == m.sample.exceeded_threshold,
            d.failed == m.sample.failed,
            d.workload == workload,
            d.object_size_label == object_size_label,
            d.size_bytes == m.size_bytes,
            d.throughput_bps == m.throughput_bps,
            d.object_key == object_key,
            d.source == source,
    {
        let now = create_timestamp();
        MetricsDocument::new(m, workload, object_size_label, object_key, source, now)
    }
}

} // verus!
