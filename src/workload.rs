//! The workload: its validated configuration, bucket provisioning, the
//! shared task source that workers draw from, and the run's phases and
//! counters.

use vstd::prelude::*;
use crate::size::{parse_size, size_spec, SizeError};
use crate::ledger::{ledger_of, count_stored, lemma_ledger_matches_successes};

verus! {

/// The two kinds of workload.
#[derive(Clone, Copy, Debug, PartialEq, Eq, Structural)]
pub enum Workload {
    /// Generate and upload objects.
    Write,
    /// Sample and download existing objects.
    Read,
}

/// Why a configuration was refused before anything ran.
#[derive(Clone, Copy, Debug, PartialEq, Eq, Structural)]
pub enum ConfigError {
    /// The object size string is not a size.
    InvalidSize,
    /// The object size does not fit in 64 bits.
    SizeTooLarge,
    /// The workload is neither `read` nor `write`.
    InvalidWorkload,
    /// The object size is zero.
    ZeroObjectSize,
    /// The object count is zero.
    ZeroObjectCount,
    /// The concurrency is zero.
    ZeroConcurrency,
}

/// Whether `c` is the lower-case character `l`, or its upper-case ASCII
/// letter.
pub open spec fn same_letter(c: char, l: char) -> bool {
    c == l || ('a' <= l && l <= 'z' && c as u32 + 32 == l as u32)
}

/// Whether `s` spells the lower-case word `w` in any letter case.
pub open spec fn is_word(s: Seq<char>, w: Seq<char>) -> bool {
    s.len() == w.len() && forall|i: int| 0 <= i < s.len() ==> same_letter(#[trigger] s[i], w[i])
}

fn same_letter_exec(c: char, l: char) -> (r: bool)
    ensures
        r == same_letter(c, l),
{
    c == l || ('a' <= l && l <= 'z' && c as u32 + 32 == l as u32)
}

/// Whether `s` spells the lower-case word `w` in any letter case.
pub fn matches_word(s: &str, w: &str) -> (r: bool)
    ensures
        r == is_word(s@, w@),
{
    let n = s.unicode_len();
    if n != w.unicode_len() {
        return false;
    }
    let mut i: usize = 0;
    while i < n
        invariant
            n == s@.len() == w@.len(),
            i <= n,
            forall|j: int| 0 <= j < i ==> same_letter(#[trigger] s@[j], w@[j]),
        decreases n - i,
    {
        if !same_letter_exec(s.get_char(i), w.get_char(i)) {
            return false;
        }
        i = i + 1;
    }
    true
}

/// The workload that a name denotes: `write` or `read` in any letter case.
pub open spec fn workload_spec(s: Seq<char>) -> Option<Workload> {
    if is_word(s, seq!['w', 'r', 'i', 't', 'e']) {
        Some(Workload::Write)
    } else if is_word(s, seq!['r', 'e', 'a', 'd']) {
        Some(Workload::Read)
    } else {
        None
    }
}

/// Parses a workload name, `write` or `read` in any letter case.
pub fn parse_workload(s: &str) -> (r: Result<Workload, ConfigError>)
    ensures
        workload_spec(s@) is Some ==> r == Ok::<Workload, ConfigError>(workload_spec(s@)->0),
        workload_spec(s@) is None ==> r == Err::<Workload, ConfigError>(ConfigError::InvalidWorkload),
{
    proof {
        reveal_strlit("write");
        reveal_strlit("read");
    }
    if matches_word(s, "write") {
        Ok(Workload::Write)
    } else if matches_word(s, "read") {
        Ok(Workload::Read)
    } else {
        Err(ConfigError::InvalidWorkload)
    }
}

/// Whether cleanup was asked for: `yes` in any letter case.
pub fn parse_cleanup(answer: Option<&str>) -> (r: bool)
    ensures
        r == match answer {
            Some(a) => is_word(a@, seq!['y', 'e', 's']),
            None => false,
        },
{
    proof {
        reveal_strlit("yes");
    }
    match answer {
        Some(a) => matches_word(a, "yes"),
        None => false,
    }
}

/// A validated workload configuration, read-only for the whole run.
#[derive(Clone, Debug)]
pub struct WorkloadSpec {
    pub bucket: String,
    pub prefix: Option<String>,
    /// The object size as the user wrote it.
    pub object_size_label: String,
    pub object_size_bytes: u64,
    pub object_count: u64,
    pub mode: Workload,
    /// Latency ceiling per operation, in nanoseconds.
    pub max_latency_ns: Option<u64>,
    pub concurrency: u32,
    pub cleanup_requested: bool,
}

/// The error that the configuration checks give, in the order they are
/// made, or `None` when all pass.
pub open spec fn config_error_spec(
    object_size: Seq<char>,
    object_count: u64,
    workload: Seq<char>,
    concurrency: u32,
) -> Option<ConfigError> {
    match size_spec(object_size) {
        None => Some(ConfigError::InvalidSize),
        Some(v) => if v > u64::MAX {
            Some(ConfigError::SizeTooLarge)
        } else if workload_spec(workload) is None {
            Some(ConfigError::InvalidWorkload)
        } else if v == 0 {
            Some(ConfigError::ZeroObjectSize)
        } else if object_count == 0 {
            Some(ConfigError::ZeroObjectCount)
        } else if concurrency == 0 {
            Some(ConfigError::ZeroConcurrency)
        } else {
            None
        },
    }
}

impl WorkloadSpec {
    /// Validates a configuration: the size must parse to a positive byte
    /// count, the workload must be `read` or `write`, and the object count
    /// and concurrency must be positive.
    pub fn new(
        bucket: String,
        prefix: Option<String>,
        object_size: String,
        object_count: u64,
        workload: &str,
        max_latency_ns: Option<u64>,
        concurrency: u32,
        cleanup: Option<&str>,
    ) -> (r: Result<WorkloadSpec, ConfigError>)
        ensures
            config_error_spec(object_size@, object_count, workload@, concurrency) is Some
                ==> r == Err::<WorkloadSpec, ConfigError>(
                config_error_spec(object_size@, object_count, workload@, concurrency)->0,
            ),
            config_error_spec(object_size@, object_count, workload@, concurrency) is None ==> (r is Ok
                && r->Ok_0.bucket == bucket
                && r->Ok_0.prefix == prefix
                && r->Ok_0.object_size_label == object_size
                && size_spec(object_size@) == Some(r->Ok_0.object_size_bytes as nat)
                && r->Ok_0.object_count == object_count
                && Some(r->Ok_0.mode) == workload_spec(workload@)
                && r->Ok_0.max_latency_ns == max_latency_ns
                && r->Ok_0.concurrency == concurrency
                && r->Ok_0.cleanup_requested == match cleanup {
                    Some(a) => is_word(a@, seq!['y', 'e', 's']),
                    None => false,
                }),
    {
        let size = match parse_size(object_size.as_str()) {
            Ok(v) => v,
            Err(SizeError::Invalid) => return Err(ConfigError::InvalidSize),
            Err(SizeError::TooLarge) => return Err(ConfigError::SizeTooLarge),
        };
        let mode = match parse_workload(workload) {
            Ok(m) => m,
            Err(e) => return Err(e),
        };
        if size == 0 {
            return Err(ConfigError::ZeroObjectSize);
        }
        if object_count == 0 {
            return Err(ConfigError::ZeroObjectCount);
        }
        if concurrency == 0 {
            return Err(ConfigError::ZeroConcurrency);
        }
        let cleanup_requested = parse_cleanup(cleanup);
        Ok(WorkloadSpec {
            bucket,
            prefix,
            object_size_label: object_size,
            object_size_bytes: size,
            object_count,
            mode,
            max_latency_ns,
            concurrency,
            cleanup_requested,
        })
    }
}

/// What provisioning does once the bucket's existence is known.
#[derive(Clone, Copy, Debug, PartialEq, Eq, Structural)]
pub enum ProvisionAction {
    CreateBucket,
    Proceed,
}

/// A write workload creates a missing bucket; otherwise the run proceeds. A
/// failed existence check counts as a missing bucket.
pub fn provision_action(bucket_exists: bool, mode: Workload) -> (r: ProvisionAction)
    ensures
        r == (if !bucket_exists && mode == Workload::Write {
            ProvisionAction::CreateBucket
        } else {
            ProvisionAction::Proceed
        }),
{
    if !bucket_exists && mode == Workload::Write {
        ProvisionAction::CreateBucket
    } else {
        ProvisionAction::Proceed
    }
}

/// The task indices that `calls` successive claims hand out from a counter
/// at `next` bounded by `total`, in the order handed out.
pub open spec fn issued(next: nat, total: nat, calls: nat) -> Seq<nat>
    decreases calls,
{
    if calls == 0 || next >= total {
        Seq::empty()
    } else {
        seq![next] + issued(next + 1, total, (calls - 1) as nat)
    }
}

proof fn lemma_issued_from(next: nat, total: nat, calls: nat)
    requires
        next <= total,
    ensures
        issued(next, total, calls).len() == if calls <= total - next { calls as int } else { total - next },
        forall|i: int| 0 <= i < issued(next, total, calls).len() ==> #[trigger] issued(next, total, calls)[i] == next + i,
    decreases calls,
{
    if calls > 0 && next < total {
        lemma_issued_from(next + 1, total, (calls - 1) as nat);
        let rest = issued(next + 1, total, (calls - 1) as nat);
        assert forall|i: int| 0 <= i < issued(next, total, calls).len() implies #[trigger] issued(next, total, calls)[i] == next + i by {
            if i > 0 {
                assert(issued(next, total, calls)[i] == rest[i - 1]);
            }
        }
    }
}

/// However many workers share the task counter, and however their claims
/// interleave, the claims hand out each task index below `total` exactly
/// once, in order, and nothing more; so a fully successful write run of
/// `total` distinct keys leaves exactly `total` ledger entries.
pub proof fn lemma_tasks_independent_of_workers(total: nat, calls: nat, keys: Seq<Seq<char>>)
    requires
        calls >= total,
        keys.len() == total,
        keys.no_duplicates(),
    ensures
        issued(0, total, calls).len() == total,
        forall|i: int| 0 <= i < total ==> #[trigger] issued(0, total, calls)[i] == i,
        ledger_of(keys, Seq::new(total, |i: int| true)).len() == total,
{
    lemma_issued_from(0, total, calls);
    let stored = Seq::new(total, |i: int| true);
    lemma_ledger_matches_successes(keys, stored);
    lemma_count_all(stored, total as int);
}

proof fn lemma_count_all(stored: Seq<bool>, n: int)
    requires
        0 <= n <= stored.len(),
        forall|i: int| 0 <= i < stored.len() ==> stored[i],
    ensures
        count_stored(stored, n) == n,
    decreases n,
{
    if n > 0 {
        lemma_count_all(stored, n - 1);
    }
}

/// Phases of a run.
#[derive(Clone, Copy, Debug, PartialEq, Eq, Structural)]
pub enum RunPhase {
    Idle,
    Provisioning,
    Running,
    Draining,
    CleaningUp,
    Done,
    Failed,
}

/// Counts that a run reports when it ends. Dropped telemetry and failed
/// deletes are kept apart from the operation counts.
#[derive(Clone, Copy, Debug, PartialEq, Eq)]
pub struct RunSummary {
    pub attempted: u64,
    pub succeeded: u64,
    pub failed: u64,
    pub telemetry_dropped: u64,
    pub cleanup_failed: u64,
}

/// The run's shared state: its phase, the task counter that workers claim
/// from, the cancellation flag and the counters.
pub struct Run {
    phase: RunPhase,
    total: u64,
    next_task: u64,
    cancelled: bool,
    fatal: bool,
    cleanup_requested: bool,
    summary: RunSummary,
}

impl Run {
    pub closed spec fn phase(&self) -> RunPhase {
        self.phase
    }

    pub closed spec fn total(&self) -> nat {
        self.total as nat
    }

    /// Tasks handed out so far.
    pub closed spec fn next_task(&self) -> nat {
        self.next_task as nat
    }

    pub closed spec fn cancelled(&self) -> bool {
        self.cancelled
    }

    /// Whether a fatal error has ended the run.
    pub closed spec fn fatal(&self) -> bool {
        self.fatal
    }

    pub closed spec fn cleanup_requested(&self) -> bool {
        self.cleanup_requested
    }

    pub closed spec fn summary(&self) -> RunSummary {
        self.summary
    }

    /// Each attempted operation is counted once, as a success or a failure,
    /// and no more operations are attempted than tasks were handed out.
    pub closed spec fn wf(&self) -> bool {
        self.next_task <= self.total
            && self.summary.succeeded + self.summary.failed <= self.summary.attempted
            && self.summary.attempted <= self.next_task
    }

    /// A run of `spec.object_count` operations, not started.
    pub fn new(spec: &WorkloadSpec) -> (r: Run)
        ensures
            r.wf(),
            r.phase() == RunPhase::Idle,
            r.total() == spec.object_count,
            r.next_task() == 0,
            !r.cancelled(),
            !r.fatal(),
            r.cleanup_requested() == spec.cleanup_requested,
            r.summary() == (RunSummary { attempted: 0, succeeded: 0, failed: 0, telemetry_dropped: 0, cleanup_failed: 0 }),
    {
        Run {
            phase: RunPhase::Idle,
            total: spec.object_count,
            next_task: 0,
            cancelled: false,
            fatal: false,
            cleanup_requested: spec.cleanup_requested,
            summary: RunSummary { attempted: 0, succeeded: 0, failed: 0, telemetry_dropped: 0, cleanup_failed: 0 },
        }
    }

    pub fn phase_now(&self) -> (r: RunPhase)
        ensures
            r == self.phase(),
    {
        self.phase
    }

    pub fn summary_now(&self) -> (r: RunSummary)
        ensures
            r == self.summary(),
    {
        self.summary
    }

    pub fn is_cancelled(&self) -> (r: bool)
        ensures
            r == self.cancelled(),
    {
        self.cancelled
    }

    /// Idle to Provisioning.
    pub fn start(&mut self)
        requires
            old(self).wf(),
            old(self).phase() == RunPhase::Idle,
        ensures
            final(self).wf(),
            final(self).phase() == RunPhase::Provisioning,
            final(self).total() == old(self).total(),
            final(self).next_task() == old(self).next_task(),
            final(self).cancelled() == old(self).cancelled(),
            final(self).fatal() == old(self).fatal(),
            final(self).cleanup_requested() == old(self).cleanup_requested(),
            final(self).summary() == old(self).summary(),
    {
        self.phase = RunPhase::Provisioning;
    }

    /// Ends provisioning: the run goes on to Running unless the bucket
    /// had to be created and that failed, which is fatal. A fatal run
    /// starts no task and goes straight to cleanup or its end.
    pub fn provisioned(&mut self, ok: bool)
        requires
            old(self).wf(),
            old(self).phase() == RunPhase::Provisioning,
        ensures
            final(self).wf(),
            ok ==> final(self).phase() == RunPhase::Running && final(self).cancelled() == old(self).cancelled()
                && final(self).fatal() == old(self).fatal(),
            !ok ==> final(self).cancelled() && final(self).fatal() && final(self).phase() == RunPhase::Draining,
            final(self).total() == old(self).total(),
            final(self).next_task() == old(self).next_task(),
            final(self).cleanup_requested() == old(self).cleanup_requested(),
            final(self).summary() == old(self).summary(),
    {
        if ok {
            self.phase = RunPhase::Running;
        } else {
            self.cancelled = true;
            self.fatal = true;
            self.phase = RunPhase::Draining;
        }
    }

    /// Hands the next task index to a worker, or `None` when every task has
    /// been handed out or the run is cancelled. Each index below the total
    /// is handed out once, whichever worker asks.
    pub fn claim_task(&mut self) -> (r: Option<u64>)
        requires
            old(self).wf(),
        ensures
            final(self).wf(),
            !old(self).cancelled() && old(self).next_task() < old(self).total() ==> r == Some(
                old(self).next_task() as u64,
            ) && final(self).next_task() == old(self).next_task() + 1,
            old(self).cancelled() || old(self).next_task() >= old(self).total() ==> r is None
                && final(self).next_task() == old(self).next_task(),
            !old(self).cancelled() ==> issued(old(self).next_task(), old(self).total(), 1) == match r {
                Some(i) => seq![i as nat],
                None => Seq::<nat>::empty(),
            },
            final(self).phase() == old(self).phase(),
            final(self).total() == old(self).total(),
            final(self).cancelled() == old(self).cancelled(),
            final(self).fatal() == old(self).fatal(),
            final(self).cleanup_requested() == old(self).cleanup_requested(),
            final(self).summary() == old(self).summary(),
    {
        if self.cancelled || self.next_task >= self.total {
            None
        } else {
            let i = self.next_task;
            self.next_task = self.next_task + 1;
            proof {
                assert(issued((i + 1) as nat, self.total as nat, 0) == Seq::<nat>::empty());
                assert(issued(i as nat, self.total as nat, 1) == seq![i as nat] + issued((i + 1) as nat, self.total as nat, 0));
                assert(issued(i as nat, self.total as nat, 1) =~= seq![i as nat]);
            }
            Some(i)
        }
    }

    /// Counts the end of one claimed operation; a failed one is a failed
    /// measurement and the run goes on.
    pub fn record_operation(&mut self, succeeded: bool)
        requires
            old(self).wf(),
            old(self).summary().attempted < old(self).next_task(),
        ensures
            final(self).wf(),
            final(self).summary() == (RunSummary {
                attempted: (old(self).summary().attempted + 1) as u64,
                succeeded: (old(self).summary().succeeded + if succeeded { 1int } else { 0int }) as u64,
                failed: (old(self).summary().failed + if succeeded { 0int } else { 1int }) as u64,
                ..old(self).summary()
            }),
            final(self).phase() == old(self).phase(),
            final(self).total() == old(self).total(),
            final(self).next_task() == old(self).next_task(),
            final(self).cancelled() == old(self).cancelled(),
            final(self).fatal() == old(self).fatal(),
            final(self).cleanup_requested() == old(self).cleanup_requested(),
    {
        self.summary.attempted = self.summary.attempted + 1;
        if succeeded {
            self.summary.succeeded = self.summary.succeeded + 1;
        } else {
            self.summary.failed = self.summary.failed + 1;
        }
    }

    /// Counts a document that was dropped after its last attempt.
    pub fn record_telemetry_drop(&mut self)
        requires
            old(self).wf(),
            old(self).summary().telemetry_dropped < u64::MAX,
        ensures
            final(self).wf(),
            final(self).summary() == (RunSummary {
                telemetry_dropped: (old(self).summary().telemetry_dropped + 1) as u64,
                ..old(self).summary()
            }),
            final(self).phase() == old(self).phase(),
            final(self).total() == old(self).total(),
            final(self).next_task() == old(self).next_task(),
            final(self).cancelled() == old(self).cancelled(),
            final(self).fatal() == old(self).fatal(),
            final(self).cleanup_requested() == old(self).cleanup_requested(),
    {
        self.summary.telemetry_dropped = self.summary.telemetry_dropped + 1;
    }

    /// The read workload found no object: no new task starts, and the run
    /// ends normally with what it attempted, nothing in that case.
    pub fn stop_empty(&mut self)
        requires
            old(self).wf(),
        ensures
            final(self).wf(),
            final(self).cancelled(),
            final(self).fatal() == old(self).fatal(),
            final(self).phase() == old(self).phase(),
            final(self).total() == old(self).total(),
            final(self).next_task() == old(self).next_task(),
            final(self).cleanup_requested() == old(self).cleanup_requested(),
            final(self).summary() == old(self).summary(),
    {
        self.cancelled = true;
    }

    /// A fatal condition: no new task starts, and the run will end Failed
    /// after its cleanup.
    pub fn fail(&mut self)
        requires
            old(self).wf(),
        ensures
            final(self).wf(),
            final(self).cancelled(),
            final(self).fatal(),
            final(self).phase() == (if old(self).phase() == RunPhase::Running {
                RunPhase::Draining
            } else {
                old(self).phase()
            }),
            final(self).total() == old(self).total(),
            final(self).next_task() == old(self).next_task(),
            final(self).cleanup_requested() == old(self).cleanup_requested(),
            final(self).summary() == old(self).summary(),
    {
        self.cancelled = true;
        self.fatal = true;
        if self.phase == RunPhase::Running {
            self.phase = RunPhase::Draining;
        }
    }

    /// All workers have stopped claiming: Running to Draining.
    pub fn workers_finished(&mut self)
        requires
            old(self).wf(),
            old(self).phase() == RunPhase::Running || old(self).phase() == RunPhase::Draining,
        ensures
            final(self).wf(),
            final(self).phase() == RunPhase::Draining,
            final(self).total() == old(self).total(),
            final(self).next_task() == old(self).next_task(),
            final(self).cancelled() == old(self).cancelled(),
            final(self).fatal() == old(self).fatal(),
            final(self).cleanup_requested() == old(self).cleanup_requested(),
            final(self).summary() == old(self).summary(),
    {
        self.phase = RunPhase::Draining;
    }

    /// In-flight work has finished or been abandoned: the run cleans up if
    /// that was asked for, else it ends, Failed after a fatal error.
    pub fn drained(&mut self)
        requires
            old(self).wf(),
            old(self).phase() == RunPhase::Draining,
        ensures
            final(self).wf(),
            final(self).phase() == (if old(self).cleanup_requested() {
                RunPhase::CleaningUp
            } else if old(self).fatal() {
                RunPhase::Failed
            } else {
                RunPhase::Done
            }),
            final(self).total() == old(self).total(),
            final(self).next_task() == old(self).next_task(),
            final(self).cancelled() == old(self).cancelled(),
            final(self).fatal() == old(self).fatal(),
            final(self).cleanup_requested() == old(self).cleanup_requested(),
            final(self).summary() == old(self).summary(),
    {
        if self.cleanup_requested {
            self.phase = RunPhase::CleaningUp;
        } else if self.fatal {
            self.phase = RunPhase::Failed;
        } else {
            self.phase = RunPhase::Done;
        }
    }

    /// Cleanup is over with `failed_deletes` deletes that failed; the run
    /// ends, Failed after a fatal error.
    pub fn cleanup_finished(&mut self, failed_deletes: u64)
        requires
            old(self).wf(),
            old(self).phase() == RunPhase::CleaningUp,
        ensures
            final(self).wf(),
            final(self).phase() == (if old(self).fatal() { RunPhase::Failed } else { RunPhase::Done }),
            final(self).summary() == (RunSummary { cleanup_failed: failed_deletes, ..old(self).summary() }),
            final(self).total() == old(self).total(),
            final(self).next_task() == old(self).next_task(),
            final(self).cancelled() == old(self).cancelled(),
            final(self).fatal() == old(self).fatal(),
    {
        self.summary.cleanup_failed = failed_deletes;
        if self.fatal {
            self.phase = RunPhase::Failed;
        } else {
            self.phase = RunPhase::Done;
        }
    }
}

} // verus!
