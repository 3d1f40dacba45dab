//! Timing of one storage operation and the metrics derived from it.
//!
//! Durations are whole nanoseconds taken from a monotonic clock. Throughput
//! is reported in bytes per second; dividing by one million gives MB/s, which
//! is `(1000 / durationMs) * sizeBytes / 1e6`.

use vstd::prelude::*;

verus! {

/// Nanoseconds in one second.
pub const NANOS_PER_SEC: u128 = 1_000_000_000;

/// The duration used for arithmetic: a zero reading is clamped to the
/// smallest representable positive duration, one nanosecond.
pub open spec fn effective_nanos(duration_ns: nat) -> nat {
    if duration_ns == 0 {
        1
    } else {
        duration_ns
    }
}

/// Bytes per second moved by an operation of `size_bytes` that took
/// `duration_ns`, rounded down.
pub open spec fn throughput_spec(duration_ns: nat, size_bytes: nat) -> nat {
    (size_bytes * 1_000_000_000nat) / effective_nanos(duration_ns)
}

/// Whether a duration breaks the configured latency ceiling. With no ceiling
/// configured nothing is ever over it.
pub open spec fn exceeds_spec(duration_ns: nat, max_latency_ns: Option<u64>) -> bool {
    match max_latency_ns {
        Some(max) => duration_ns > max as nat,
        None => false,
    }
}

/// Throughput in bytes per second of an operation that moved `size_bytes`
/// in `duration_ns` nanoseconds; a zero duration counts as one nanosecond.
pub fn calculate_throughput(duration_ns: u64, size_bytes: u64) -> (r: u128)
    ensures
        r as nat == throughput_spec(duration_ns as nat, size_bytes as nat),
        duration_ns > 0 ==> r as nat == (size_bytes as nat * 1_000_000_000nat) / (duration_ns as nat),
{
    let d: u128 = if duration_ns == 0 {
        1
    } else {
        duration_ns as u128
    };
    assert(size_bytes as u128 * NANOS_PER_SEC <= 0xffff_ffff_ffff_ffff_u128 * 1_000_000_000u128)
        by (nonlinear_arith);
    (size_bytes as u128 * NANOS_PER_SEC) / d
}

/// Whether `duration_ns` is over the configured ceiling; always `false` when
/// none is configured.
pub fn evaluate_latency(duration_ns: u64, max_latency_ns: Option<u64>) -> (r: bool)
    ensures
        r == exceeds_spec(duration_ns as nat, max_latency_ns),
        r <==> (max_latency_ns.is_some() && duration_ns > max_latency_ns.unwrap()),
{
    match max_latency_ns {
        Some(max) => duration_ns > max,
        None => false,
    }
}

/// The latency outcome of one storage operation.
#[derive(Clone, Copy, Debug, PartialEq, Eq)]
pub struct LatencySample {
    /// Elapsed monotonic time of the call, in nanoseconds.
    pub duration_ns: u64,
    /// Whether the configured latency ceiling was broken.
    pub exceeded_threshold: bool,
    /// Whether the reading was zero and had to be clamped; such samples are
    /// suspicious and worth a log line.
    pub clamped: bool,
    /// Whether the operation failed; its duration is then the time to failure.
    pub failed: bool,
}

/// Everything derived from one timed operation.
#[derive(Clone, Copy, Debug, PartialEq, Eq)]
pub struct Measurement {
    pub sample: LatencySample,
    pub size_bytes: u64,
    /// Bytes per second.
    pub throughput_bps: u128,
}

impl Measurement {
    /// Derives latency flags and throughput from a raw timing.
    pub fn from_timing(
        duration_ns: u64,
        size_bytes: u64,
        max_latency_ns: Option<u64>,
        failed: bool,
    ) -> (m: Measurement)
        ensures
            m.sample.duration_ns == duration_ns,
            m.sample.exceeded_threshold == exceeds_spec(duration_ns as nat, max_latency_ns),
            m.sample.clamped == (duration_ns == 0),
            m.sample.failed == failed,
            m.size_bytes == size_bytes,
            m.throughput_bps as nat == throughput_spec(duration_ns as nat, size_bytes as nat),
    {
        let exceeded = evaluate_latency(duration_ns, max_latency_ns);
        let throughput_bps = calculate_throughput(duration_ns, size_bytes);
        Measurement {
            sample: LatencySample {
                duration_ns,
                exceeded_threshold: exceeded,
                clamped: duration_ns == 0,
                failed,
            },
            size_bytes,
            throughput_bps,
        }
    }
}

} // verus!
