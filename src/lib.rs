//! Measurement and orchestration core of an object-storage benchmark.
//!
//! The library holds the decisions of a benchmark run: sizes and payloads,
//! object names, per-operation measurement, telemetry retry, the cleanup
//! ledger, read sampling and the run's task accounting. Talking to the
//! storage and metrics backends is left to the caller.

pub mod measure;
pub mod naming;
pub mod ledger;
pub mod sampler;
pub mod size;
pub mod telemetry;
pub mod workload;
