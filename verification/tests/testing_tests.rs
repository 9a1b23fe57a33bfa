//! Checks of the test runner: the run-once flag, the per-run state machine,
//! and the run summaries.

use api_check::config::{AppConfig, ServerConfig, SharedConfig, TestConfig};
use api_check::metrics::create_shared_metrics;
use api_check::testing::{effective_target_url, ApiTester, RunFlag, TestRun};

#[test]
fn test_tester_creation() {
    let config = SharedConfig::new(AppConfig::default());
    let metrics = create_shared_metrics(1000);
    let tester = ApiTester::new(config, metrics);

    assert!(!tester.is_running());
}

#[test]
fn test_run_flag_check_and_set() {
    let mut flag = RunFlag { running: false };
    assert!(flag.try_start());
    assert!(flag.running);
    // A second start attempt fails and alters nothing.
    assert!(!flag.try_start());
    assert!(flag.running);
    flag.clear();
    assert!(!flag.running);
    flag.clear();
    assert!(!flag.running);
}

#[test]
fn test_start_is_exclusive() {
    let config = SharedConfig::new(AppConfig::default());
    let metrics = create_shared_metrics(1000);
    let tester = ApiTester::new(config, metrics);

    assert!(tester.try_start());
    assert!(tester.is_running());
    // Starting a run while one is in progress must fail without altering
    // the running flag.
    assert!(!tester.try_start());
    assert!(tester.is_running());
    tester.stop();
    assert!(!tester.is_running());
}

#[test]
fn test_run_three_calls_all_ok() {
    // Three calls, no pacing, every call answered 200: the summary counts
    // three attempts, all successful, and three records reach the store.
    let config = SharedConfig::new(AppConfig::default());
    let metrics = create_shared_metrics(1000);
    let tester = ApiTester::new(config.clone(), metrics.clone());

    let mut test_config = TestConfig::default();
    test_config.num_calls = 3;
    test_config.frequency_ms = 0;
    test_config.target_url = Some("http://127.0.0.1:3000/".to_string());

    assert!(tester.try_start());
    let mut run = TestRun::new(&test_config, &config.get().server);
    while run.should_continue(tester.is_running()) {
        let metric = run.record_success(200, 5);
        metrics.record(metric);
        assert_eq!(run.pause_before_next(), None);
    }
    tester.stop();

    let summary = run.into_summary(15);
    assert_eq!(summary.total_requests, 3);
    assert_eq!(summary.successful, 3);
    assert_eq!(summary.failed, 0);
    assert_eq!(summary.avg_latency_ms, 5);
    assert_eq!(summary.results.len(), 3);
    assert_eq!(summary.results[0].index, 1);
    assert_eq!(summary.results[2].index, 3);
    assert_eq!(metrics.count(), 3);
    assert!(!tester.is_running());
}

#[test]
fn test_run_stopped_after_first_call() {
    // Five calls scheduled with pacing, but stop() lands right after the
    // first call completes: the run ends with one attempt, and the runner
    // reads idle again.
    let config = SharedConfig::new(AppConfig::default());
    let metrics = create_shared_metrics(1000);
    let tester = ApiTester::new(config.clone(), metrics.clone());

    let mut test_config = TestConfig::default();
    test_config.num_calls = 5;
    test_config.frequency_ms = 100;
    test_config.target_url = Some("http://127.0.0.1:3000/".to_string());

    assert!(tester.try_start());
    let mut run = TestRun::new(&test_config, &config.get().server);
    let mut attempted = 0;
    while run.should_continue(tester.is_running()) {
        let metric = run.record_success(200, 4);
        metrics.record(metric);
        attempted += 1;
        // The stop arrives before the 100 ms pacing delay elapses.
        assert_eq!(run.pause_before_next(), Some(100));
        tester.stop();
    }
    tester.stop();

    let summary = run.into_summary(4);
    assert!(summary.total_requests < 5);
    assert_eq!(summary.total_requests, attempted);
    assert_eq!(summary.total_requests, 1);
    assert!(!tester.is_running());
}

#[test]
fn test_run_records_failures() {
    // A failed call is recorded (no status, zero latency, an error text)
    // and does not abort the run.
    let config = SharedConfig::new(AppConfig::default());
    let metrics = create_shared_metrics(1000);

    let mut test_config = TestConfig::default();
    test_config.num_calls = 2;
    test_config.frequency_ms = 0;
    test_config.target_url = Some("http://127.0.0.1:1/".to_string());

    let mut run = TestRun::new(&test_config, &config.get().server);
    let metric = run.record_failure("connection refused".to_string());
    metrics.record(metric);
    let metric = run.record_success(503, 8);
    metrics.record(metric);

    let summary = run.into_summary(9);
    assert_eq!(summary.total_requests, 2);
    assert_eq!(summary.successful, 0);
    assert_eq!(summary.failed, 2);
    assert_eq!(summary.results[0].status_code, None);
    assert_eq!(summary.results[0].latency_ms, 0);
    assert_eq!(
        summary.results[0].error,
        Some("connection refused".to_string())
    );
    assert_eq!(summary.results[1].status_code, Some(503));
    assert!(!summary.results[1].success);
    assert_eq!(metrics.count(), 2);
}

#[test]
fn test_run_summary_latency_figures() {
    let config = SharedConfig::new(AppConfig::default());
    let mut test_config = TestConfig::default();
    test_config.num_calls = 3;
    test_config.target_url = Some("http://127.0.0.1:3000/".to_string());

    let mut run = TestRun::new(&test_config, &config.get().server);
    run.record_success(200, 10);
    run.record_success(200, 30);
    run.record_success(200, 26);

    let summary = run.into_summary(70);
    assert_eq!(summary.min_latency_ms, 10);
    assert_eq!(summary.max_latency_ms, 30);
    assert_eq!(summary.avg_latency_ms, 22);
    assert_eq!(summary.total_duration_ms, 70);
}

#[test]
fn test_empty_run_summary() {
    let config = SharedConfig::new(AppConfig::default());
    let mut test_config = TestConfig::default();
    test_config.num_calls = 0;
    test_config.target_url = Some("http://127.0.0.1:3000/".to_string());

    let run = TestRun::new(&test_config, &config.get().server);
    assert!(!run.should_continue(true));
    let summary = run.into_summary(0);
    assert_eq!(summary.total_requests, 0);
    assert_eq!(summary.successful, 0);
    assert_eq!(summary.failed, 0);
    assert_eq!(summary.avg_latency_ms, 0);
    assert_eq!(summary.min_latency_ms, 0);
    assert_eq!(summary.max_latency_ms, 0);
}

#[test]
fn test_effective_target_url() {
    let server = ServerConfig::default();
    let mut test_config = TestConfig::default();
    assert_eq!(
        effective_target_url(&test_config, &server),
        "http://127.0.0.1:3000/"
    );
    test_config.target_url = Some("http://example.com/api".to_string());
    assert_eq!(
        effective_target_url(&test_config, &server),
        "http://example.com/api"
    );
}
