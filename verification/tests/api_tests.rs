//! Checks of the management API's data shapes and merge rules.

use api_check::api::{
    chosen_test_config, default_seconds, health_response, merge_proxy_update, merge_test_update,
    test_status_response, RecentMetricsQuery, UpdateProxyRequest, UpdateTestRequest,
};
use api_check::config::{ProxyConfig, TestConfig};

#[test]
fn test_health_check() {
    let response = health_response("0.1.0".to_string());
    assert_eq!(response.status, "healthy");
    assert_eq!(response.version, "0.1.0");
}

#[test]
fn test_merge_proxy_update_partial() {
    let current = ProxyConfig {
        enabled: false,
        target: Some("http://old".to_string()),
    };
    let merged = merge_proxy_update(
        current,
        UpdateProxyRequest {
            enabled: Some(true),
            target: None,
        },
    );
    assert!(merged.enabled);
    assert_eq!(merged.target, Some("http://old".to_string()));

    let merged = merge_proxy_update(
        merged,
        UpdateProxyRequest {
            enabled: None,
            target: Some("http://new".to_string()),
        },
    );
    assert!(merged.enabled);
    assert_eq!(merged.target, Some("http://new".to_string()));
}

#[test]
fn test_merge_test_update_partial() {
    let current = TestConfig::default();
    let merged = merge_test_update(
        current,
        UpdateTestRequest {
            num_calls: Some(7),
            frequency_ms: None,
            method: Some("POST".to_string()),
            target_url: Some("http://t".to_string()),
            body: None,
            headers: Some(vec![("x-k".to_string(), "v".to_string())]),
        },
    );
    assert_eq!(merged.num_calls, 7);
    assert_eq!(merged.frequency_ms, 100);
    assert_eq!(merged.method, "POST");
    assert_eq!(merged.target_url, Some("http://t".to_string()));
    assert_eq!(merged.body, None);
    assert_eq!(merged.headers, vec![("x-k".to_string(), "v".to_string())]);
}

#[test]
fn test_recent_metrics_query_default() {
    assert_eq!(default_seconds(), 60);
    let query = RecentMetricsQuery::default();
    assert_eq!(query.seconds, 60);
}

#[test]
fn test_status_response_mirrors_flag() {
    assert!(test_status_response(true).running);
    assert!(!test_status_response(false).running);
}

#[test]
fn test_chosen_test_config() {
    let fallback = TestConfig::default();
    let chosen = chosen_test_config(None, fallback.clone());
    assert_eq!(chosen.num_calls, fallback.num_calls);

    let mut wanted = TestConfig::default();
    wanted.num_calls = 3;
    let chosen = chosen_test_config(Some(wanted), fallback);
    assert_eq!(chosen.num_calls, 3);
}
