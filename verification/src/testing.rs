//! The cancellable test runner: a run-once flag with compare-and-set
//! semantics behind a verified lock, and the per-run state machine that
//! decides, records and summarises a paced sequence of calls. The pacing
//! loop itself — issuing the HTTP calls and sleeping between them — is
//! outside work driven by the caller; every decision it takes comes from
//! here with an exact contract.

use crate::config::{ServerConfig, SharedConfig, TestConfig};
use crate::http::{decimal_of, method_of, parse_method, u64_to_decimal, HttpMethod};
use crate::metrics::{RequestMetric, SharedMetrics};
use vstd::prelude::*;
use vstd::rwlock::{RwLock, RwLockPredicate};
use vstd::string::StringExecFns;

verus! {

/// The outcome of one call of a test run.
pub struct TestResult {
    /// 1-based index of the call within its run.
    pub index: u32,
    /// Whether the call got a status in [200, 300).
    pub success: bool,
    /// The status received, if a response arrived at all.
    pub status_code: Option<u16>,
    /// Latency in whole milliseconds (0 when no response arrived).
    pub latency_ms: u64,
    /// A description of the failure, when no response arrived.
    pub error: Option<String>,
}

/// Mathematical model of a [`TestResult`].
pub struct TestResultView {
    pub index: u32,
    pub success: bool,
    pub status_code: Option<u16>,
    pub latency_ms: u64,
    pub error: Option<Seq<char>>,
}

impl View for TestResult {
    type V = TestResultView;

    open spec fn view(&self) -> TestResultView {
        TestResultView {
            index: self.index,
            success: self.success,
            status_code: self.status_code,
            latency_ms: self.latency_ms,
            error: match self.error {
                Some(ref e) => Some(e@),
                None => None,
            },
        }
    }
}

/// The models of a sequence of test results.
pub open spec fn result_views(ts: Seq<TestResult>) -> Seq<TestResultView> {
    ts.map_values(|t: TestResult| t@)
}

/// Count of successful results.
pub open spec fn success_count_of(ts: Seq<TestResultView>) -> nat
    decreases ts.len(),
{
    if ts.len() == 0 {
        0
    } else {
        success_count_of(ts.drop_last()) + if ts.last().success {
            1nat
        } else {
            0nat
        }
    }
}

/// Sum of result latencies.
pub open spec fn result_sum_latency(ts: Seq<TestResultView>) -> nat
    decreases ts.len(),
{
    if ts.len() == 0 {
        0
    } else {
        result_sum_latency(ts.drop_last()) + ts.last().latency_ms as nat
    }
}

/// Least result latency; `u64::MAX` for no results.
pub open spec fn result_min_latency(ts: Seq<TestResultView>) -> u64
    decreases ts.len(),
{
    if ts.len() == 0 {
        u64::MAX
    } else {
        let m = result_min_latency(ts.drop_last());
        if ts.last().latency_ms < m {
            ts.last().latency_ms
        } else {
            m
        }
    }
}

/// Greatest result latency; 0 for no results.
pub open spec fn result_max_latency(ts: Seq<TestResultView>) -> u64
    decreases ts.len(),
{
    if ts.len() == 0 {
        0
    } else {
        let m = result_max_latency(ts.drop_last());
        if ts.last().latency_ms > m {
            ts.last().latency_ms
        } else {
            m
        }
    }
}

/// Aggregated outcome of one run, over the calls actually attempted,
/// whether the run completed or was cut short.
pub struct TestRunSummary {
    /// Calls attempted.
    pub total_requests: u32,
    /// Calls that got a status in [200, 300).
    pub successful: u32,
    /// The rest: failed calls.
    pub failed: u32,
    /// Mean latency in whole milliseconds (0 when nothing was attempted).
    pub avg_latency_ms: u64,
    /// Least latency (0 when nothing was attempted).
    pub min_latency_ms: u64,
    /// Greatest latency (0 when nothing was attempted).
    pub max_latency_ms: u64,
    /// Wall-clock duration of the whole run in milliseconds.
    pub total_duration_ms: u64,
    /// One entry per attempted call, in order.
    pub results: Vec<TestResult>,
}

/// Whether a summary aggregates a result sequence exactly.
pub open spec fn run_summary_matches(
    ts: Seq<TestResultView>,
    duration_ms: u64,
    s: TestRunSummary,
) -> bool {
    &&& s.total_requests == ts.len()
    &&& s.successful == success_count_of(ts)
    &&& s.failed == ts.len() - success_count_of(ts)
    &&& s.avg_latency_ms == if ts.len() == 0 {
        0int
    } else {
        result_sum_latency(ts) as int / ts.len() as int
    }
    &&& s.min_latency_ms == if ts.len() == 0 {
        0u64
    } else {
        result_min_latency(ts)
    }
    &&& s.max_latency_ms == result_max_latency(ts)
    &&& s.total_duration_ms == duration_ms
    &&& result_views(s.results@) == ts
}

/// Unfolds every result aggregate by one step.
proof fn lemma_result_step(ts: Seq<TestResultView>, i: int)
    requires
        0 <= i < ts.len(),
    ensures
        success_count_of(ts.take(i + 1)) == success_count_of(ts.take(i)) + (if ts[i].success {
            1nat
        } else {
            0nat
        }),
        result_sum_latency(ts.take(i + 1)) == result_sum_latency(ts.take(i))
            + ts[i].latency_ms as nat,
        result_min_latency(ts.take(i + 1)) == (if ts[i].latency_ms < result_min_latency(
            ts.take(i),
        ) {
            ts[i].latency_ms
        } else {
            result_min_latency(ts.take(i))
        }),
        result_max_latency(ts.take(i + 1)) == (if ts[i].latency_ms > result_max_latency(
            ts.take(i),
        ) {
            ts[i].latency_ms
        } else {
            result_max_latency(ts.take(i))
        }),
{
    assert(ts.take(i + 1).drop_last() =~= ts.take(i));
    assert(ts.take(i + 1).last() == ts[i]);
}

/// The latency sum is bounded by the result count times the largest latency.
proof fn lemma_result_sum_bound(ts: Seq<TestResultView>)
    ensures
        result_sum_latency(ts) <= ts.len() * (u64::MAX as nat),
    decreases ts.len(),
{
    if ts.len() > 0 {
        lemma_result_sum_bound(ts.drop_last());
        assert((ts.len() - 1) * (u64::MAX as nat) + (u64::MAX as nat) == ts.len() * (
        u64::MAX as nat)) by (nonlinear_arith);
    }
}

/// The target a run addresses when none is configured: the server's own
/// bound address, at the root path.
pub open spec fn default_target_of(host: Seq<char>, port: u16) -> Seq<char> {
    "http://"@ + host + ":"@ + decimal_of(port as nat) + "/"@
}

/// The URL a run will call: the configured target when present, else the
/// server's own bound address.
pub fn effective_target_url(test: &TestConfig, server: &ServerConfig) -> (r: String)
    ensures
        r@ == match test@.target_url {
            Some(u) => u,
            None => default_target_of(server@.host, server@.port),
        },
{
    match &test.target_url {
        Some(u) => u.clone(),
        None => {
            let mut s = "http://".to_owned();
            s.append(server.host.as_str());
            s.append(":");
            let port = u64_to_decimal(server.port as u64);
            s.append(port.as_str());
            s.append("/");
            proof {
                assert(s@ =~= default_target_of(server@.host, server@.port));
            }
            s
        },
    }
}

/// The state of one run: what remains to be called, and what each attempted
/// call produced so far. The caller alternates [`TestRun::should_continue`],
/// one outside call, [`TestRun::record_success`] or
/// [`TestRun::record_failure`], and [`TestRun::pause_before_next`]; the run
/// ends in [`TestRun::into_summary`].
pub struct TestRun {
    method: HttpMethod,
    url: String,
    num_calls: u32,
    frequency_ms: u64,
    results: Vec<TestResult>,
}

impl TestRun {
    /// The method every call of this run uses.
    pub closed spec fn method_name(&self) -> Seq<char> {
        self.method.name()
    }

    /// The URL every call of this run addresses.
    pub closed spec fn target(&self) -> Seq<char> {
        self.url@
    }

    /// How many calls the run makes when not cut short.
    pub closed spec fn planned_calls(&self) -> u32 {
        self.num_calls
    }

    /// The pacing delay between calls.
    pub closed spec fn pacing_ms(&self) -> u64 {
        self.frequency_ms
    }

    /// The outcomes of the calls attempted so far.
    pub closed spec fn outcomes(&self) -> Seq<TestResultView> {
        result_views(self.results@)
    }

    /// How many calls were attempted so far.
    pub open spec fn attempted(&self) -> int {
        self.outcomes().len() as int
    }

    /// Attempts never outnumber the plan, and every outcome carries its
    /// 1-based position.
    pub open spec fn wf(&self) -> bool {
        &&& self.attempted() <= self.planned_calls()
        &&& forall|i: int| 0 <= i < self.attempted() ==> #[trigger] self.outcomes()[i].index == i
            + 1
    }

    /// A fresh run for the given test configuration, aimed at the configured
    /// target or at the server's own address.
    pub fn new(test: &TestConfig, server: &ServerConfig) -> (r: Self)
        ensures
            r.wf(),
            r.outcomes() == Seq::<TestResultView>::empty(),
            r.planned_calls() == test.num_calls,
            r.pacing_ms() == test.frequency_ms,
            r.method_name() == method_of(test@.method).name(),
            r.target() == match test@.target_url {
                Some(u) => u,
                None => default_target_of(server@.host, server@.port),
            },
    {
        let r = TestRun {
            method: parse_method(test.method.as_str()),
            url: effective_target_url(test, server),
            num_calls: test.num_calls,
            frequency_ms: test.frequency_ms,
            results: Vec::new(),
        };
        proof {
            assert(r.outcomes() =~= Seq::<TestResultView>::empty());
        }
        r
    }

    /// Whether another call is due: the cancellation flag (read by the
    /// caller at this iteration boundary) still allows it, and the plan is
    /// not exhausted.
    pub fn should_continue(&self, keep_running: bool) -> (r: bool)
        requires
            self.wf(),
        ensures
            r == (keep_running && self.attempted() < self.planned_calls()),
    {
        keep_running && (self.results.len() as u32) < self.num_calls
    }

    /// Records a call that got a response: the outcome is appended, counted
    /// successful exactly when the status is in [200, 300), and a metric
    /// carrying the same method, target, status and latency is handed back
    /// for the shared store.
    pub fn record_success(&mut self, status: u16, latency_ms: u64) -> (m: RequestMetric)
        requires
            old(self).wf(),
            old(self).attempted() < old(self).planned_calls(),
        ensures
            final(self).wf(),
            final(self).planned_calls() == old(self).planned_calls(),
            final(self).pacing_ms() == old(self).pacing_ms(),
            final(self).method_name() == old(self).method_name(),
            final(self).target() == old(self).target(),
            final(self).outcomes() == old(self).outcomes().push(
                (TestResultView {
                    index: (old(self).attempted() + 1) as u32,
                    success: 200 <= status < 300,
                    status_code: Some(status),
                    latency_ms: latency_ms,
                    error: None,
                }),
            ),
            m@.method == old(self).method_name(),
            m@.path == old(self).target(),
            m@.status_code == Some(status),
            m@.latency_ms == latency_ms,
            m@.proxied == false,
    {
        let ghost prior = self.results@;
        let index = (self.results.len() as u32) + 1;
        let success = 200 <= status && status < 300;
        self.results.push(
            TestResult { index, success, status_code: Some(status), latency_ms, error: None },
        );
        proof {
            assert(result_views(self.results@) =~= result_views(prior).push(
                self.results@.last()@,
            ));
        }
        RequestMetric::new(self.method.as_str().to_owned(), self.url.clone()).with_status(
            status,
        ).with_latency(latency_ms)
    }

    /// Records a call that got no response: the outcome is appended with no
    /// status, zero latency and the error's description, and a metric with
    /// no status and zero latency is handed back for the shared store.
    /// An individual failure never aborts the run.
    pub fn record_failure(&mut self, error: String) -> (m: RequestMetric)
        requires
            old(self).wf(),
            old(self).attempted() < old(self).planned_calls(),
        ensures
            final(self).wf(),
            final(self).planned_calls() == old(self).planned_calls(),
            final(self).pacing_ms() == old(self).pacing_ms(),
            final(self).method_name() == old(self).method_name(),
            final(self).target() == old(self).target(),
            final(self).outcomes() == old(self).outcomes().push(
                (TestResultView {
                    index: (old(self).attempted() + 1) as u32,
                    success: false,
                    status_code: None,
                    latency_ms: 0,
                    error: Some(error@),
                }),
            ),
            m@.method == old(self).method_name(),
            m@.path == old(self).target(),
            m@.status_code is None,
            m@.latency_ms == 0,
            m@.proxied == false,
    {
        let ghost prior = self.results@;
        let index = (self.results.len() as u32) + 1;
        self.results.push(
            TestResult {
                index,
                success: false,
                status_code: None,
                latency_ms: 0,
                error: Some(error),
            },
        );
        proof {
            assert(result_views(self.results@) =~= result_views(prior).push(
                self.results@.last()@,
            ));
        }
        RequestMetric::new(self.method.as_str().to_owned(), self.url.clone())
    }

    /// The pacing delay owed before the next call: the configured delay,
    /// except after the last planned call and when no delay is configured.
    pub fn pause_before_next(&self) -> (p: Option<u64>)
        requires
            self.wf(),
        ensures
            p == if self.attempted() < self.planned_calls() && self.pacing_ms() > 0 {
                Some(self.pacing_ms())
            } else {
                None::<u64>
            },
    {
        if (self.results.len() as u32) < self.num_calls && self.frequency_ms > 0 {
            Some(self.frequency_ms)
        } else {
            None
        }
    }

    /// Closes the run: aggregates count, successes, failures and latency
    /// figures over the calls actually attempted — whether or not the run
    /// was cut short — and hands the ordered outcomes over.
    pub fn into_summary(self, total_duration_ms: u64) -> (s: TestRunSummary)
        requires
            self.wf(),
        ensures
            run_summary_matches(self.outcomes(), total_duration_ms, s),
    {
        let ghost ts = self.outcomes();
        let n = self.results.len();
        let mut successful: u32 = 0;
        let mut sum: u128 = 0;
        let mut min_lat: u64 = u64::MAX;
        let mut max_lat: u64 = 0;
        let mut i: usize = 0;
        proof {
            assert(ts.take(0) =~= Seq::<TestResultView>::empty());
        }
        while i < n
            invariant
                i <= n,
                n == self.results@.len(),
                ts == result_views(self.results@),
                ts.len() == n,
                n <= u32::MAX,
                successful == success_count_of(ts.take(i as int)),
                successful <= i,
                sum == result_sum_latency(ts.take(i as int)),
                min_lat == result_min_latency(ts.take(i as int)),
                max_lat == result_max_latency(ts.take(i as int)),
            decreases n - i,
        {
            proof {
                lemma_result_step(ts, i as int);
                lemma_result_sum_bound(ts.take(i as int));
                assert((i as nat) * (u64::MAX as nat) + (u64::MAX as nat) == (i as nat + 1) * (
                u64::MAX as nat)) by (nonlinear_arith);
                assert((i as nat + 1) * (u64::MAX as nat) <= (u64::MAX as nat) * (u64::MAX as nat))
                    by (nonlinear_arith)
                    requires
                        i as nat + 1 <= u64::MAX as nat,
                ;
                assert((u64::MAX as nat) * (u64::MAX as nat) < u128::MAX as nat)
                    by (nonlinear_arith);
            }
            let t = &self.results[i];
            if t.success {
                successful = successful + 1;
            }
            sum = sum + (t.latency_ms as u128);
            if t.latency_ms < min_lat {
                min_lat = t.latency_ms;
            }
            if t.latency_ms > max_lat {
                max_lat = t.latency_ms;
            }
            i += 1;
        }
        proof {
            assert(ts.take(n as int) =~= ts);
            lemma_result_sum_bound(ts);
            if n > 0 {
                vstd::arithmetic::div_mod::lemma_div_is_ordered(
                    sum as int,
                    ts.len() * (u64::MAX as int),
                    ts.len() as int,
                );
                vstd::arithmetic::div_mod::lemma_div_multiples_vanish(
                    u64::MAX as int,
                    ts.len() as int,
                );
                assert(ts.len() * (u64::MAX as int) == (u64::MAX as int) * ts.len()) by (
                nonlinear_arith);
            }
        }
        let total = n as u32;
        let avg = if n == 0 {
            0
        } else {
            (sum / (n as u128)) as u64
        };
        let min_final = if n == 0 {
            0
        } else {
            min_lat
        };
        TestRunSummary {
            total_requests: total,
            successful,
            failed: total - successful,
            avg_latency_ms: avg,
            min_latency_ms: min_final,
            max_latency_ms: max_lat,
            total_duration_ms: total_duration_ms,
            results: self.results,
        }
    }
}

/// The runner's run-once flag.
#[derive(Clone, Copy, PartialEq, Eq, Structural)]
pub struct RunFlag {
    /// Whether a run is in progress.
    pub running: bool,
}

/// What one start attempt does to the flag: when a run is already in
/// progress, nothing changes and the attempt fails; otherwise the flag is
/// raised and the attempt succeeds.
pub open spec fn start_outcome(f: RunFlag) -> (RunFlag, bool) {
    if f.running {
        (f, false)
    } else {
        (RunFlag { running: true }, true)
    }
}

impl RunFlag {
    /// Checks and sets the flag in one step.
    pub fn try_start(&mut self) -> (started: bool)
        ensures
            (*final(self), started) == start_outcome(*old(self)),
    {
        if self.running {
            false
        } else {
            self.running = true;
            true
        }
    }

    /// Lowers the flag; idempotent.
    pub fn clear(&mut self)
        ensures
            final(self).running == false,
    {
        self.running = false;
    }
}

/// At most one run can be active at a time: a start attempt while a run is
/// in progress fails and leaves the flag exactly as it was — nothing is
/// queued and nothing is altered — while a start from idle succeeds; and
/// after a flag is cleared (as every ending run and every `stop` does) the
/// runner reads as idle again.
pub proof fn lemma_run_exclusion(f: RunFlag, cleared: RunFlag)
    requires
        cleared.running == false,
    ensures
        f.running ==> start_outcome(f) == ((f, false)),
        !f.running ==> start_outcome(f) == ((RunFlag { running: true }, true)),
        start_outcome(f).0.running,
        start_outcome(cleared).1,
{
}

/// Lock predicate for the run flag: any flag value is admissible.
struct FlagInv {}

impl RwLockPredicate<RunFlag> for FlagInv {
    open spec fn inv(self, v: RunFlag) -> bool {
        true
    }
}

/// The test runner: owns the process-wide run-once flag (one per runner
/// instance) and the handles a run needs. The flag sits behind a verified
/// lock, so concurrent start attempts are serialised: the check and the set
/// of [`ApiTester::try_start`] happen in one critical section.
pub struct ApiTester {
    config: SharedConfig,
    metrics: SharedMetrics,
    running: RwLock<RunFlag, FlagInv>,
}

impl ApiTester {
    /// A new, idle runner over the shared configuration and metrics store.
    pub fn new(config: SharedConfig, metrics: SharedMetrics) -> Self {
        ApiTester {
            config,
            metrics,
            running: RwLock::new(RunFlag { running: false }, Ghost(FlagInv {})),
        }
    }

    /// Whether a run is in progress right now; non-blocking with respect to
    /// other readers.
    pub fn is_running(&self) -> bool {
        let handle = self.running.acquire_read();
        let r = handle.borrow().running;
        handle.release_read();
        r
    }

    /// Clears the flag: a run in progress stops at its next iteration
    /// boundary (calls already dispatched finish on their own). Idempotent;
    /// without a run in progress this has no effect.
    pub fn stop(&self) {
        let (mut flag, handle) = self.running.acquire_write();
        flag.clear();
        handle.release_write(flag);
    }

    /// Attempts the Idle-to-Running transition in one atomic check-and-set:
    /// returns false — altering nothing, queueing nothing — when a run is
    /// already in progress, true when this caller may now run.
    pub fn try_start(&self) -> bool {
        let (mut flag, handle) = self.running.acquire_write();
        let started = flag.try_start();
        handle.release_write(flag);
        started
    }

    /// The shared configuration this runner reads its defaults from.
    pub fn config(&self) -> &SharedConfig {
        &self.config
    }

    /// The shared store this runner records each call into.
    pub fn metrics(&self) -> &SharedMetrics {
        &self.metrics
    }
}

/// A test runner shared across tasks.
pub type SharedTester = std::sync::Arc<ApiTester>;

/// A new shared runner.
pub fn create_shared_tester(config: SharedConfig, metrics: SharedMetrics) -> SharedTester {
    std::sync::Arc::new(ApiTester::new(config, metrics))
}

} // verus!
