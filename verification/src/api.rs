//! The management API's data shapes and the merge rules its update
//! endpoints apply: a partial update changes exactly the fields it names and
//! leaves the rest as they were. The HTTP endpoints themselves live in the
//! embedding layer and call down here.

use crate::config::{header_view, ProxyConfig, SharedConfig, TestConfig};
use crate::metrics::SharedMetrics;
use crate::testing::SharedTester;
use vstd::prelude::*;
use vstd::string::StringExecFns;

verus! {

/// A partial update of the proxy configuration: absent fields stay as they
/// are.
pub struct UpdateProxyRequest {
    /// New enabled flag, if given.
    pub enabled: Option<bool>,
    /// New target, if given.
    pub target: Option<String>,
}

/// Applies a partial proxy update: each given field replaces the current
/// one; each absent field keeps its current value.
pub fn merge_proxy_update(current: ProxyConfig, req: UpdateProxyRequest) -> (r: ProxyConfig)
    ensures
        r@.enabled == match req.enabled {
            Some(e) => e,
            None => current@.enabled,
        },
        r@.target == match req.target {
            Some(ref t) => Some(t@),
            None => current@.target,
        },
{
    let mut r = current;
    match req.enabled {
        Some(e) => {
            r.enabled = e;
        },
        None => {},
    }
    if req.target.is_some() {
        r.target = req.target;
    }
    r
}

/// A partial update of the test configuration: absent fields stay as they
/// are.
pub struct UpdateTestRequest {
    /// New call count, if given.
    pub num_calls: Option<u32>,
    /// New pacing delay, if given.
    pub frequency_ms: Option<u64>,
    /// New method name, if given.
    pub method: Option<String>,
    /// New target URL, if given.
    pub target_url: Option<String>,
    /// New body, if given.
    pub body: Option<String>,
    /// New header list, if given.
    pub headers: Option<Vec<(String, String)>>,
}

/// Applies a partial test-configuration update: each given field replaces
/// the current one; each absent field keeps its current value.
pub fn merge_test_update(current: TestConfig, req: UpdateTestRequest) -> (r: TestConfig)
    ensures
        r.num_calls == match req.num_calls {
            Some(n) => n,
            None => current.num_calls,
        },
        r.frequency_ms == match req.frequency_ms {
            Some(f) => f,
            None => current.frequency_ms,
        },
        r@.method == match req.method {
            Some(ref m) => m@,
            None => current@.method,
        },
        r@.target_url == match req.target_url {
            Some(ref t) => Some(t@),
            None => current@.target_url,
        },
        r@.body == match req.body {
            Some(ref b) => Some(b@),
            None => current@.body,
        },
        r@.headers == match req.headers {
            Some(ref hs) => hs@.map_values(|p: (String, String)| header_view(p)),
            None => current@.headers,
        },
{
    let mut r = current;
    match req.num_calls {
        Some(n) => {
            r.num_calls = n;
        },
        None => {},
    }
    match req.frequency_ms {
        Some(f) => {
            r.frequency_ms = f;
        },
        None => {},
    }
    match req.method {
        Some(m) => {
            r.method = m;
        },
        None => {},
    }
    if req.target_url.is_some() {
        r.target_url = req.target_url;
    }
    if req.body.is_some() {
        r.body = req.body;
    }
    match req.headers {
        Some(hs) => {
            r.headers = hs;
        },
        None => {},
    }
    r
}

/// Query for the recent-metrics endpoint: how many trailing seconds to keep.
pub struct RecentMetricsQuery {
    /// Window length in seconds.
    pub seconds: i64,
}

/// The window the recent-metrics endpoint uses when none is asked for.
pub fn default_seconds() -> (r: i64)
    ensures
        r == 60,
{
    60
}

impl Default for RecentMetricsQuery {
    fn default() -> (r: Self)
        ensures
            r.seconds == 60,
    {
        RecentMetricsQuery { seconds: default_seconds() }
    }
}

/// Answer of the test-status endpoint.
pub struct TestStatusResponse {
    /// Whether a run is in progress.
    pub running: bool,
}

/// The answer the test-status endpoint gives.
pub fn test_status_response(running: bool) -> (r: TestStatusResponse)
    ensures
        r.running == running,
{
    TestStatusResponse { running }
}

/// Body of the run-test endpoint: an optional configuration for this run.
pub struct RunTestRequest {
    /// The run's configuration; the shared test configuration when absent.
    pub config: Option<TestConfig>,
}

/// The configuration one run uses: the requested one when given, else the
/// fallback (the shared configuration's test section).
pub fn chosen_test_config(requested: Option<TestConfig>, fallback: TestConfig) -> (r: TestConfig)
    ensures
        r@ == match requested {
            Some(ref c) => c@,
            None => fallback@,
        },
{
    match requested {
        Some(c) => c,
        None => fallback,
    }
}

/// Answer of the health endpoint.
pub struct HealthResponse {
    /// Always reads "healthy" while the process can answer at all.
    pub status: String,
    /// The running build's version.
    pub version: String,
}

/// The answer the health endpoint gives: healthy, with the given version.
pub fn health_response(version: String) -> (r: HealthResponse)
    ensures
        r.status@ == "healthy"@,
        r.version@ == version@,
{
    HealthResponse { status: "healthy".to_owned(), version }
}

/// Everything the management API hands its handlers.
pub struct ApiState {
    /// Shared configuration.
    pub config: SharedConfig,
    /// Shared metrics store.
    pub metrics: SharedMetrics,
    /// Shared test runner.
    pub tester: SharedTester,
}

impl ApiState {
    /// A new API state over the shared handles.
    pub fn new(config: SharedConfig, metrics: SharedMetrics, tester: SharedTester) -> Self {
        ApiState { config, metrics, tester }
    }
}

} // verus!
