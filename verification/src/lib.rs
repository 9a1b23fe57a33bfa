//! A development utility library: a bounded metrics store with windowed
//! aggregation, a request-forwarding (proxy) planner, and a cancellable
//! paced test runner, all sharing one concern — shared state mutated from
//! many concurrent tasks.
//!
//! The concurrency-bearing pieces are built on vstd's verified
//! reader-writer lock, so eviction + append, summary snapshots and the
//! run-once flag are machine-checked to be consistent under arbitrary
//! interleaving.

pub mod api;
pub mod config;
pub mod dashboard;
pub mod http;
pub mod metrics;
pub mod proxy;
pub mod server;
pub mod testing;

pub use config::{AppConfig, SharedConfig};
pub use metrics::{create_shared_metrics, MetricsSummary, SharedMetrics};
pub use testing::{create_shared_tester, SharedTester};
