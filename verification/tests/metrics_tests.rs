//! Checks of the metrics store: recording, eviction, aggregation, the
//! trailing window, the histogram and the time series.

use api_check::metrics::{create_shared_metrics, MetricsCollector, MetricsStore, RequestMetric};

#[test]
fn test_record_metric() {
    let collector = MetricsCollector::new(100);
    let metric = RequestMetric::new("GET".to_string(), "/test".to_string())
        .with_status(200)
        .with_latency(10);

    collector.record(metric);
    assert_eq!(collector.count(), 1);
}

#[test]
fn test_summary() {
    let collector = MetricsCollector::new(100);

    for i in 0..10u64 {
        let metric = RequestMetric::new("GET".to_string(), "/test".to_string())
            .with_status(200)
            .with_latency(i * 10);
        collector.record(metric);
    }

    let summary = collector.get_summary();
    assert_eq!(summary.total_requests, 10);
    assert_eq!(summary.successful_requests, 10);
    assert_eq!(summary.min_latency_ms, 0);
    assert_eq!(summary.max_latency_ms, 90);
}

#[test]
fn test_max_entries() {
    let collector = MetricsCollector::new(20);

    for i in 0..30 {
        let metric = RequestMetric::new("GET".to_string(), format!("/test/{}", i));
        collector.record(metric);
    }

    // Should have removed some entries
    assert!(collector.count() < 30);
}

#[test]
fn test_eviction_batch_size() {
    // Capacity 20: the 21st record first evicts 20 / 10 = 2 oldest records.
    let collector = MetricsCollector::new(20);
    for i in 0..20 {
        collector.record(RequestMetric::new("GET".to_string(), format!("/r/{}", i)));
    }
    assert_eq!(collector.count(), 20);
    collector.record(RequestMetric::new("GET".to_string(), "/one-more".to_string()));
    assert_eq!(collector.count(), 19);
    // The two oldest records are gone; the store kept insertion order.
    let all = collector.get_all();
    assert_eq!(all[0].path, "/r/2");
    assert_eq!(all[18].path, "/one-more");
}

#[test]
fn test_eviction_small_capacity() {
    // Capacity below ten: a tenth rounds down to zero, but at least one
    // record is still evicted, so the store cannot grow past its capacity.
    let collector = MetricsCollector::new(5);
    for i in 0..9 {
        collector.record(RequestMetric::new("GET".to_string(), format!("/r/{}", i)));
        assert!(collector.count() <= 5);
    }
    assert_eq!(collector.count(), 5);
}

#[test]
fn test_summary_empty_store() {
    let collector = MetricsCollector::new(100);
    let summary = collector.get_summary();
    assert_eq!(summary.total_requests, 0);
    assert_eq!(summary.successful_requests, 0);
    assert_eq!(summary.failed_requests, 0);
    assert_eq!(summary.avg_latency_ms, 0);
    assert_eq!(summary.min_latency_ms, 0);
    assert_eq!(summary.max_latency_ms, 0);
    assert_eq!(summary.requests_per_second, 0);
    assert!(summary.status_distribution.is_empty());
}

#[test]
fn test_status_distribution_scenario() {
    // Ten records: five 200s, two 500s, three 404s. The 500s and the 404s
    // both count as failed.
    let collector = MetricsCollector::new(100);
    let statuses: [u16; 10] = [200, 200, 200, 200, 200, 500, 500, 404, 404, 404];
    for status in statuses {
        let metric = RequestMetric::new("GET".to_string(), "/load".to_string())
            .with_status(status)
            .with_latency(1);
        collector.record(metric);
    }
    let summary = collector.get_summary();
    assert_eq!(summary.total_requests, 10);
    assert_eq!(summary.successful_requests, 5);
    assert_eq!(summary.failed_requests, 5);
    assert_eq!(summary.status_distribution.get(&200), Some(&5));
    assert_eq!(summary.status_distribution.get(&500), Some(&2));
    assert_eq!(summary.status_distribution.get(&404), Some(&3));
    assert_eq!(summary.status_distribution.len(), 3);
}

#[test]
fn test_summary_without_status_codes() {
    // Records without a status count toward neither successes nor failures.
    let collector = MetricsCollector::new(100);
    collector.record(RequestMetric::new("GET".to_string(), "/a".to_string()).with_status(204));
    collector.record(RequestMetric::new("GET".to_string(), "/b".to_string()));
    collector.record(RequestMetric::new("GET".to_string(), "/c".to_string()).with_status(301));
    let summary = collector.get_summary();
    assert_eq!(summary.total_requests, 3);
    assert_eq!(summary.successful_requests, 1);
    assert_eq!(summary.failed_requests, 0);
    assert!(summary.successful_requests + summary.failed_requests <= summary.total_requests);
}

#[test]
fn test_proxied_count() {
    let collector = MetricsCollector::new(100);
    collector.record(
        RequestMetric::new("GET".to_string(), "/p".to_string())
            .with_status(200)
            .with_proxied(true),
    );
    collector.record(RequestMetric::new("GET".to_string(), "/q".to_string()).with_status(200));
    let summary = collector.get_summary();
    assert_eq!(summary.proxied_requests, 1);
}

#[test]
fn test_average_latency() {
    let collector = MetricsCollector::new(100);
    for latency in [10u64, 15, 20] {
        collector.record(
            RequestMetric::new("GET".to_string(), "/avg".to_string())
                .with_status(200)
                .with_latency(latency),
        );
    }
    let summary = collector.get_summary();
    // (10 + 15 + 20) / 3 = 15
    assert_eq!(summary.avg_latency_ms, 15);
}

#[test]
fn test_get_all_snapshot() {
    let collector = MetricsCollector::new(100);
    collector.record(
        RequestMetric::new("POST".to_string(), "/x".to_string())
            .with_status(201)
            .with_latency(7),
    );
    collector.record(RequestMetric::new("GET".to_string(), "/y".to_string()).with_status(200));
    let all = collector.get_all();
    assert_eq!(all.len(), 2);
    assert_eq!(all[0].method, "POST");
    assert_eq!(all[0].path, "/x");
    assert_eq!(all[0].status_code, Some(201));
    assert_eq!(all[0].latency_ms, 7);
    assert_eq!(all[1].method, "GET");
    assert_eq!(all[0].id.len(), 36);
}

#[test]
fn test_get_recent_windows() {
    let collector = MetricsCollector::new(100);
    for _ in 0..4 {
        collector.record(RequestMetric::new("GET".to_string(), "/now".to_string()));
    }
    // Everything was recorded within the last hour.
    assert_eq!(collector.get_recent(3600).len(), 4);
    // A negative window places the cutoff in the future: nothing qualifies.
    assert_eq!(collector.get_recent(-3600).len(), 0);
}

#[test]
fn test_histogram_no_buckets() {
    let collector = MetricsCollector::new(100);
    for _ in 0..3 {
        collector.record(
            RequestMetric::new("GET".to_string(), "/h".to_string())
                .with_status(200)
                .with_latency(42),
        );
    }
    let histogram = collector.get_latency_histogram(0);
    assert_eq!(histogram, vec![(42, 3)]);
}

#[test]
fn test_histogram_uniform_latency() {
    // All records share one latency: whatever bucket count is asked for,
    // everything collapses into a single bucket.
    let collector = MetricsCollector::new(100);
    for _ in 0..3 {
        collector.record(
            RequestMetric::new("GET".to_string(), "/h".to_string())
                .with_status(200)
                .with_latency(42),
        );
    }
    let histogram = collector.get_latency_histogram(5);
    assert_eq!(histogram, vec![(42, 3)]);
}

#[test]
fn test_histogram_empty_store() {
    let collector = MetricsCollector::new(100);
    assert_eq!(collector.get_latency_histogram(4), vec![]);
}

#[test]
fn test_histogram_buckets() {
    // Latencies 0, 10, 20, 30 over two buckets: width (30 - 0) / 2 = 15,
    // so 0 and 10 land in the first bucket, 20 in the second, and the
    // maximum (30) is clamped into the last bucket.
    let mut store = MetricsStore::new(100);
    for latency in [0u64, 10, 20, 30] {
        store.record(
            RequestMetric::new("GET".to_string(), "/h".to_string())
                .with_status(200)
                .with_latency(latency),
        );
    }
    let histogram = store.latency_histogram(2);
    assert_eq!(histogram, vec![(0, 2), (15, 2)]);
}

#[test]
fn test_time_series_window() {
    let collector = MetricsCollector::new(100);
    for latency in [1u64, 2, 3, 4, 5] {
        collector.record(
            RequestMetric::new("GET".to_string(), "/t".to_string()).with_latency(latency),
        );
    }
    let series = collector.get_time_series(3);
    assert_eq!(series.len(), 3);
    // Oldest of the selected window first.
    assert_eq!(series[0].1, 3);
    assert_eq!(series[1].1, 4);
    assert_eq!(series[2].1, 5);
}

#[test]
fn test_metric_builders() {
    let metric = RequestMetric::new("PUT".to_string(), "/b".to_string())
        .with_status(418)
        .with_latency(99)
        .with_proxied(true);
    assert_eq!(metric.method, "PUT");
    assert_eq!(metric.path, "/b");
    assert_eq!(metric.status_code, Some(418));
    assert_eq!(metric.latency_ms, 99);
    assert!(metric.proxied);
    assert_eq!(metric.id.len(), 36);
}

#[test]
fn test_requests_per_second() {
    // 120 records, all within the trailing 60-second window: 2 per second.
    let collector = MetricsCollector::new(1000);
    for _ in 0..120 {
        collector.record(RequestMetric::new("GET".to_string(), "/r".to_string()).with_status(200));
    }
    let summary = collector.get_summary();
    assert_eq!(summary.requests_per_second, 2);
}
