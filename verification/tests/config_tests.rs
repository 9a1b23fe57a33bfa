//! Checks of the configuration types, their defaults and the shared
//! snapshot.

use api_check::config::{
    default_frequency_ms, default_host, default_method, default_num_calls, default_port,
    AppConfig, ProxyConfig, ServerConfig, SharedConfig, TestConfig,
};

#[test]
fn test_default_config() {
    let config = AppConfig::default();
    assert_eq!(config.server.host, "127.0.0.1");
    assert_eq!(config.server.port, 3000);
    assert!(!config.proxy.enabled);
    assert_eq!(config.test.num_calls, 10);
}

#[test]
fn test_shared_config() {
    let config = AppConfig::default();
    let shared = SharedConfig::new(config);

    let proxy = ProxyConfig {
        enabled: true,
        target: Some("http://example.com".to_string()),
    };
    shared.update_proxy(proxy.clone());

    let updated = shared.get();
    assert!(updated.proxy.enabled);
    assert_eq!(updated.proxy.target, Some("http://example.com".to_string()));
}

#[test]
fn test_default_values() {
    assert_eq!(default_host(), "127.0.0.1");
    assert_eq!(default_port(), 3000);
    assert_eq!(default_num_calls(), 10);
    assert_eq!(default_frequency_ms(), 100);
    assert_eq!(default_method(), "GET");
}

#[test]
fn test_shared_config_update_test_section() {
    let shared = SharedConfig::new(AppConfig::default());
    let mut test = TestConfig::default();
    test.num_calls = 42;
    test.headers = vec![("x-a".to_string(), "1".to_string())];
    shared.update_test(test);
    let got = shared.get();
    assert_eq!(got.test.num_calls, 42);
    assert_eq!(got.test.headers, vec![("x-a".to_string(), "1".to_string())]);
    // Other sections were left alone.
    assert_eq!(got.server.port, 3000);
}

#[test]
fn test_shared_config_replace_whole() {
    let shared = SharedConfig::new(AppConfig::default());
    let mut config = AppConfig::default();
    config.server = ServerConfig {
        host: "0.0.0.0".to_string(),
        port: 8080,
    };
    shared.update(config);
    let got = shared.get();
    assert_eq!(got.server.host, "0.0.0.0");
    assert_eq!(got.server.port, 8080);
}

#[test]
fn test_config_clone_is_deep() {
    let mut config = AppConfig::default();
    config.proxy.target = Some("http://t".to_string());
    let copy = config.clone();
    assert_eq!(copy.server.host, config.server.host);
    assert_eq!(copy.proxy.target, config.proxy.target);
    assert_eq!(copy.test.method, config.test.method);
}
