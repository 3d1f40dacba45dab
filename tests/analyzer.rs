use object_analyzer::ledger::{CleanupLedger, CleanupReport};
use object_analyzer::measure::{calculate_throughput, evaluate_latency, Measurement};
use object_analyzer::naming::{compose_object_name, generate_object_name, run_source};
use object_analyzer::sampler::{ReadSampler, SampleStep};
use object_analyzer::size::{create_bin_data, parse_size, SizeError};
use object_analyzer::telemetry::{backoff_ms, EmitAction, Emission, MetricsDocument, TelemetryStats};
use object_analyzer::workload::{
    parse_cleanup, parse_workload, provision_action, ConfigError, ProvisionAction, Run, RunPhase,
    Workload, WorkloadSpec,
};

fn keys(names: &[&str]) -> Vec<String> {
    names.iter().map(|s| s.to_string()).collect()
}

#[test]
fn throughput_of_one_megabyte_in_one_millisecond() {
    // 1e6 bytes in 1 ms is 1000 MB/s, that is 1e9 bytes per second.
    assert_eq!(calculate_throughput(1_000_000, 1_000_000), 1_000_000_000);
    let mbps = calculate_throughput(1_000_000, 1_000_000) as f64 / 1e6;
    let formula = (1000.0 / 1.0) * 1_000_000.0 / 1e6;
    assert_eq!(mbps, formula);
}

#[test]
fn throughput_matches_formula_on_uneven_values() {
    // 10 MiB in 250 ms: (1000 / 250) * 10485760 / 1e6 = 41.94304 MB/s.
    assert_eq!(calculate_throughput(250_000_000, 10_485_760), 41_943_040);
    assert_eq!(calculate_throughput(3, 1), 333_333_333);
    assert_eq!(calculate_throughput(5, 0), 0);
}

#[test]
fn zero_duration_is_clamped_to_one_nanosecond() {
    assert_eq!(calculate_throughput(0, 5), 5_000_000_000);
    assert_eq!(calculate_throughput(0, 5), calculate_throughput(1, 5));
    let m = Measurement::from_timing(0, 5, None, false);
    assert!(m.sample.clamped);
    assert_eq!(m.throughput_bps, 5_000_000_000);
}

#[test]
fn largest_size_does_not_overflow() {
    assert_eq!(calculate_throughput(1, u64::MAX), u64::MAX as u128 * 1_000_000_000);
}

#[test]
fn latency_threshold_is_strict_and_optional() {
    assert!(evaluate_latency(11, Some(10)));
    assert!(!evaluate_latency(10, Some(10)));
    assert!(!evaluate_latency(9, Some(10)));
    assert!(!evaluate_latency(u64::MAX, None));
    assert!(!evaluate_latency(0, None));
}

#[test]
fn measurement_carries_flags() {
    let m = Measurement::from_timing(2_000_000, 4096, Some(1_000_000), true);
    assert_eq!(m.sample.duration_ns, 2_000_000);
    assert!(m.sample.exceeded_threshold);
    assert!(m.sample.failed);
    assert!(!m.sample.clamped);
    assert_eq!(m.size_bytes, 4096);
    assert_eq!(m.throughput_bps, 2_048_000);
}

#[test]
fn sizes_with_units_in_any_case() {
    assert_eq!(parse_size("10MB"), Ok(10 * 1024 * 1024));
    assert_eq!(parse_size("4kb"), Ok(4096));
    assert_eq!(parse_size("1Gb"), Ok(1024 * 1024 * 1024));
    assert_eq!(parse_size("512"), Ok(512));
    assert_eq!(parse_size("0"), Ok(0));
}

#[test]
fn bad_sizes_are_errors_not_zero() {
    assert_eq!(parse_size("10XB"), Err(SizeError::Invalid));
    assert_eq!(parse_size(""), Err(SizeError::Invalid));
    assert_eq!(parse_size("MB"), Err(SizeError::Invalid));
    assert_eq!(parse_size("1.5MB"), Err(SizeError::Invalid));
    assert_eq!(parse_size("-3"), Err(SizeError::Invalid));
}

#[test]
fn oversized_sizes_are_refused() {
    assert_eq!(parse_size("18446744073709551615"), Ok(u64::MAX));
    assert_eq!(parse_size("18446744073709551616"), Err(SizeError::TooLarge));
    assert_eq!(parse_size("20000000000GB"), Err(SizeError::TooLarge));
}

#[test]
fn payload_has_requested_size() {
    let d = create_bin_data(1000);
    assert_eq!(d.len(), 1000);
    assert!(d.iter().all(|b| *b == b'a'));
    assert!(create_bin_data(0).is_empty());
}

#[test]
fn object_names_with_and_without_prefix() {
    assert_eq!(compose_object_name(Some("dir"), "abc"), "dir/abc");
    assert_eq!(compose_object_name(None, "abc"), "abc");
    let named = generate_object_name(Some("bench"));
    assert!(named.starts_with("bench/"));
    assert_eq!(named.len(), 6 + 36);
    let id = uuid::Uuid::parse_str(&named[6..]).unwrap();
    assert_eq!(id.get_version_num(), 4);
    let bare = generate_object_name(None);
    assert_eq!(bare.len(), 36);
    assert_eq!(uuid::Uuid::parse_str(&bare).unwrap().get_version_num(), 4);
    assert_ne!(generate_object_name(None), bare);
}

#[test]
fn run_source_is_host_then_uuid() {
    let s = run_source("node-1");
    assert!(s.starts_with("node-1"));
    assert_eq!(s.len(), 6 + 36);
    assert!(uuid::Uuid::parse_str(&s[6..]).is_ok());
}

#[test]
fn ledger_counts_successful_writes_only() {
    let mut l = CleanupLedger::new();
    l.record_write("a".to_string(), true);
    l.record_write("b".to_string(), false);
    l.record_write("c".to_string(), true);
    l.record_write("a".to_string(), true);
    assert_eq!(l.len(), 2);
    assert!(l.contains(&"a".to_string()));
    assert!(!l.contains(&"b".to_string()));
    let drained = l.drain();
    assert_eq!(drained, keys(&["a", "c"]));
    assert_eq!(l.len(), 0);
}

#[test]
fn cleanup_removes_every_written_key() {
    let mut bucket: std::collections::HashSet<String> = std::collections::HashSet::new();
    let mut l = CleanupLedger::new();
    for i in 0..10 {
        let key = format!("k{}", i);
        let stored = i % 3 != 0;
        if stored {
            bucket.insert(key.clone());
        }
        l.record_write(key, stored);
    }
    assert_eq!(l.len(), 6);
    let mut report = CleanupReport::new();
    for key in l.drain() {
        let deleted = bucket.remove(&key);
        report.record_delete(key, deleted);
    }
    assert!(bucket.is_empty());
    assert_eq!(report.attempted, 6);
    assert!(report.all_deleted());
}

#[test]
fn failed_deletes_are_collected() {
    let mut report = CleanupReport::new();
    report.record_delete("x".to_string(), true);
    report.record_delete("y".to_string(), false);
    report.record_delete("z".to_string(), true);
    assert_eq!(report.attempted, 3);
    assert_eq!(report.failed, keys(&["y"]));
    assert!(!report.all_deleted());
}

#[test]
fn sampler_asks_for_pages_until_listing_is_done() {
    let mut s = ReadSampler::new();
    assert!(matches!(s.next_key(), SampleStep::NeedPage));
    s.refill(keys(&["a", "b"]), false);
    let mut seen = Vec::new();
    for _ in 0..2 {
        match s.next_key() {
            SampleStep::Key(k) => seen.push(k),
            other => panic!("expected a key, got {:?}", other),
        }
    }
    assert!(matches!(s.next_key(), SampleStep::NeedPage));
    s.refill(keys(&["c"]), true);
    match s.next_key() {
        SampleStep::Key(k) => seen.push(k),
        other => panic!("expected a key, got {:?}", other),
    }
    seen.sort();
    assert_eq!(seen, keys(&["a", "b", "c"]));
    assert_eq!(s.observed_count(), 3);
    assert!(s.is_listing_done());
}

#[test]
fn sampler_falls_back_to_replacement_on_small_prefix() {
    let mut s = ReadSampler::new();
    s.refill(keys(&["a", "b"]), false);
    s.refill(keys(&["c"]), true);
    let drawn = s.take_keys(10);
    assert_eq!(drawn.len(), 10);
    let all = keys(&["a", "b", "c"]);
    assert!(drawn.iter().all(|k| all.contains(k)));
    let mut first: Vec<String> = drawn[..3].to_vec();
    first.sort();
    assert_eq!(first, all);
}

#[test]
fn sampler_over_empty_prefix_attempts_nothing() {
    let mut s = ReadSampler::new();
    s.refill(Vec::new(), true);
    assert!(matches!(s.next_key(), SampleStep::Empty));
    assert!(s.take_keys(5).is_empty());
}

#[test]
fn telemetry_retry_then_success_records_once() {
    let mut stats = TelemetryStats::new();
    let mut e = Emission::new(3);
    assert_eq!(e.record_attempt(false), EmitAction::Retry { backoff_ms: 50 });
    let last = e.record_attempt(true);
    assert_eq!(last, EmitAction::Recorded);
    stats.apply(last);
    assert_eq!(stats, TelemetryStats { recorded: 1, dropped: 0 });
}

#[test]
fn telemetry_over_ceiling_drops_once() {
    let mut stats = TelemetryStats::new();
    let mut e = Emission::new(3);
    assert_eq!(e.record_attempt(false), EmitAction::Retry { backoff_ms: 50 });
    assert_eq!(e.record_attempt(false), EmitAction::Retry { backoff_ms: 100 });
    let last = e.record_attempt(false);
    assert_eq!(last, EmitAction::Dropped);
    stats.apply(last);
    assert_eq!(stats, TelemetryStats { recorded: 0, dropped: 1 });
}

#[test]
fn single_attempt_ceiling() {
    let mut e = Emission::new(1);
    assert_eq!(e.record_attempt(false), EmitAction::Dropped);
    assert_eq!(backoff_ms(1), 50);
    assert_eq!(backoff_ms(3), 200);
    assert_eq!(backoff_ms(15), 50 * 16384);
}

#[test]
fn metrics_document_fields() {
    let m = Measurement::from_timing(1_000_000, 1_000_000, Some(500_000), false);
    let d = MetricsDocument::new(
        &m,
        Workload::Write,
        "1MB".to_string(),
        "p/k".to_string(),
        "host".to_string(),
        1_700_000_000_000,
    );
    assert_eq!(d.latency_ns, 1_000_000);
    assert!(d.exceeded_threshold);
    assert!(!d.failed);
    assert_eq!(d.timestamp_ms, 1_700_000_000_000);
    assert_eq!(d.workload, Workload::Write);
    assert_eq!(d.object_size_label, "1MB");
    assert_eq!(d.size_bytes, 1_000_000);
    assert_eq!(d.throughput_bps, 1_000_000_000);
    assert_eq!(d.object_key, "p/k");
    assert_eq!(d.source, "host");
    let s = MetricsDocument::stamped(&m, Workload::Read, "1MB".to_string(), "k".to_string(), "h".to_string());
    assert!(s.timestamp_ms > 1_600_000_000_000);
    assert_eq!(s.workload, Workload::Read);
}

#[test]
fn workload_names_in_any_case() {
    assert_eq!(parse_workload("write"), Ok(Workload::Write));
    assert_eq!(parse_workload("WRITE"), Ok(Workload::Write));
    assert_eq!(parse_workload("Read"), Ok(Workload::Read));
    assert_eq!(parse_workload("delete"), Err(ConfigError::InvalidWorkload));
    assert_eq!(parse_workload(""), Err(ConfigError::InvalidWorkload));
    assert!(parse_cleanup(Some("YES")));
    assert!(parse_cleanup(Some("yes")));
    assert!(!parse_cleanup(Some("no")));
    assert!(!parse_cleanup(None));
}

fn spec_of(size: &str, count: u64, workload: &str, concurrency: u32) -> Result<WorkloadSpec, ConfigError> {
    WorkloadSpec::new(
        "bucket".to_string(),
        None,
        size.to_string(),
        count,
        workload,
        None,
        concurrency,
        Some("Yes"),
    )
}

#[test]
fn workload_spec_validation() {
    let ok = spec_of("2KB", 7, "write", 2).unwrap();
    assert_eq!(ok.object_size_bytes, 2048);
    assert_eq!(ok.object_count, 7);
    assert_eq!(ok.mode, Workload::Write);
    assert!(ok.cleanup_requested);
    assert_eq!(spec_of("2XB", 7, "write", 2).unwrap_err(), ConfigError::InvalidSize);
    assert_eq!(spec_of("99999999999GB", 7, "write", 2).unwrap_err(), ConfigError::SizeTooLarge);
    assert_eq!(spec_of("2KB", 7, "list", 2).unwrap_err(), ConfigError::InvalidWorkload);
    assert_eq!(spec_of("0", 7, "read", 2).unwrap_err(), ConfigError::ZeroObjectSize);
    assert_eq!(spec_of("2KB", 0, "read", 2).unwrap_err(), ConfigError::ZeroObjectCount);
    assert_eq!(spec_of("2KB", 7, "read", 0).unwrap_err(), ConfigError::ZeroConcurrency);
}

#[test]
fn provisioning_creates_only_for_writes() {
    assert_eq!(provision_action(false, Workload::Write), ProvisionAction::CreateBucket);
    assert_eq!(provision_action(true, Workload::Write), ProvisionAction::Proceed);
    assert_eq!(provision_action(false, Workload::Read), ProvisionAction::Proceed);
}

#[test]
fn concurrent_claims_hand_out_each_task_once() {
    for workers in 1..5usize {
        let spec = spec_of("1KB", 9, "write", workers as u32).unwrap();
        let mut run = Run::new(&spec);
        run.start();
        run.provisioned(true);
        let mut claimed = Vec::new();
        let mut active = vec![true; workers];
        let mut w = 0;
        while active.iter().any(|a| *a) {
            if active[w] {
                match run.claim_task() {
                    Some(i) => {
                        claimed.push(i);
                        run.record_operation(true);
                    }
                    None => active[w] = false,
                }
            }
            w = (w + 1) % workers;
        }
        assert_eq!(claimed, (0..9).collect::<Vec<u64>>());
        let summary = run.summary_now();
        assert_eq!(summary.attempted, 9);
        assert_eq!(summary.succeeded, 9);
        run.workers_finished();
        run.drained();
        assert_eq!(run.phase_now(), RunPhase::CleaningUp);
        run.cleanup_finished(0);
        assert_eq!(run.phase_now(), RunPhase::Done);
    }
}

#[test]
fn fatal_error_stops_claims_and_fails_run() {
    let spec = spec_of("1KB", 5, "write", 1).unwrap();
    let mut run = Run::new(&spec);
    run.start();
    run.provisioned(true);
    assert_eq!(run.claim_task(), Some(0));
    run.record_operation(false);
    run.fail();
    assert!(run.is_cancelled());
    assert_eq!(run.claim_task(), None);
    assert_eq!(run.phase_now(), RunPhase::Draining);
    run.drained();
    assert_eq!(run.phase_now(), RunPhase::CleaningUp);
    run.cleanup_finished(2);
    assert_eq!(run.phase_now(), RunPhase::Failed);
    let s = run.summary_now();
    assert_eq!(s.failed, 1);
    assert_eq!(s.cleanup_failed, 2);
}

#[test]
fn bucket_creation_failure_is_fatal() {
    let spec = spec_of("1KB", 5, "write", 1).unwrap();
    let mut run = Run::new(&spec);
    run.start();
    run.provisioned(false);
    assert_eq!(run.claim_task(), None);
    run.record_telemetry_drop();
    assert_eq!(run.summary_now().telemetry_dropped, 1);
}

#[test]
fn empty_read_prefix_attempts_no_operation() {
    let spec = spec_of("1KB", 4, "read", 2).unwrap();
    let mut run = Run::new(&spec);
    run.start();
    run.provisioned(true);
    let mut sampler = ReadSampler::new();
    sampler.refill(Vec::new(), true);
    assert_eq!(run.claim_task(), Some(0));
    assert!(matches!(sampler.next_key(), SampleStep::Empty));
    run.stop_empty();
    assert_eq!(run.claim_task(), None);
    run.workers_finished();
    run.drained();
    run.cleanup_finished(0);
    assert_eq!(run.phase_now(), RunPhase::Done);
    assert_eq!(run.summary_now().attempted, 0);
}

#[test]
fn refill_shuffles_the_listing_order() {
    let listing: Vec<String> = (0..20).map(|i| format!("key{:02}", i)).collect();
    let mut s = ReadSampler::new();
    s.refill(listing.clone(), true);
    let drawn = s.take_keys(20);
    let mut unshuffled = listing.clone();
    unshuffled.reverse();
    assert_ne!(drawn, unshuffled);
    let mut sorted = drawn.clone();
    sorted.sort();
    assert_eq!(sorted, listing);
}

#[test]
fn replacement_draws_spread_over_observed_keys() {
    let mut s = ReadSampler::new();
    s.refill(keys(&["a", "b", "c"]), true);
    let drawn = s.take_keys(303);
    let tail = &drawn[3..];
    assert!(tail.iter().any(|k| k != &tail[0]));
    assert!(tail.iter().all(|k| k == "a" || k == "b" || k == "c"));
}
