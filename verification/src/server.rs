//! Server-side decisions: which requests the timing middleware records,
//! the metric it leaves behind, and whether a non-management request is
//! forwarded or echoed. The routing, the timer and the transport are the
//! embedding layer's; each decision it needs is taken here under contract.

use crate::config::{AppConfig, SharedConfig};
use crate::metrics::{RequestMetric, SharedMetrics};
use crate::testing::SharedTester;
use vstd::prelude::*;
use vstd::string::StrSliceExecFns;

verus! {

/// Whether a path belongs to the management API (under `/api/`).
pub open spec fn is_api_path(p: Seq<char>) -> bool {
    p.len() >= 5 && p.subrange(0, 5) == "/api/"@
}

/// Whether the timing middleware records a request to this path: all of
/// them except the management API's own endpoints.
pub fn should_record_path(path: &str) -> (r: bool)
    ensures
        r == !is_api_path(path@),
{
    proof {
        reveal_strlit("/api/");
    }
    if path.unicode_len() < 5 {
        return true;
    }
    let prefix_matches = path.get_char(0) == '/' && path.get_char(1) == 'a' && path.get_char(2)
        == 'p' && path.get_char(3) == 'i' && path.get_char(4) == '/';
    proof {
        if prefix_matches {
            assert(path@.subrange(0, 5) =~= "/api/"@);
        } else {
            assert(path@.subrange(0, 5) != "/api/"@) by {
                if path@.subrange(0, 5) == "/api/"@ {
                    assert(path@.subrange(0, 5)[0] == path@[0]);
                    assert(path@.subrange(0, 5)[1] == path@[1]);
                    assert(path@.subrange(0, 5)[2] == path@[2]);
                    assert(path@.subrange(0, 5)[3] == path@[3]);
                    assert(path@.subrange(0, 5)[4] == path@[4]);
                }
            }
        }
    }
    !prefix_matches
}

/// The metric the timing middleware records for one served request: its
/// method, path, response status and measured latency; not proxied.
pub fn middleware_metric(method: String, path: String, status: u16, latency_ms: u64) -> (m:
    RequestMetric)
    ensures
        m@.method == method@,
        m@.path == path@,
        m@.status_code == Some(status),
        m@.latency_ms == latency_ms,
        m@.proxied == false,
{
    RequestMetric::new(method, path).with_status(status).with_latency(latency_ms)
}

/// Whether a non-management request is forwarded upstream rather than
/// echoed: proxy mode must be on and a target configured.
pub fn should_forward(config: &AppConfig) -> (r: bool)
    ensures
        r == (config@.proxy.enabled && config@.proxy.target is Some),
{
    config.proxy.enabled && config.proxy.target.is_some()
}

/// Everything the server hands its request handlers.
pub struct ServerState {
    /// Shared configuration.
    pub config: SharedConfig,
    /// Shared metrics store.
    pub metrics: SharedMetrics,
    /// Shared test runner.
    pub tester: SharedTester,
}

impl ServerState {
    /// A new server state over the shared handles.
    pub fn new(config: SharedConfig, metrics: SharedMetrics, tester: SharedTester) -> Self {
        ServerState { config, metrics, tester }
    }
}

} // verus!
