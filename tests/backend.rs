use nydus_builder::{default_http_scheme, CommonConfig};

#[test]
fn test_default_http_scheme() {
    assert_eq!(default_http_scheme(), "https");
}

#[test]
fn test_common_config() {
    let config = CommonConfig::default();

    assert_eq!(config.timeout, 5);
    assert_eq!(config.connect_timeout, 5);
    assert_eq!(config.retry_limit, 0);
    assert_eq!(config.proxy.check_interval, 5);
    assert_eq!(config.proxy.fallback, true);
    assert_eq!(config.proxy.ping_url, "");
    assert_eq!(config.proxy.url, "");
}
