use ripple::bootstrap::{
    json_logs, listen_address, metrics_address, primary_address, validation_exit_code,
    wants_validate_only,
};
use ripple::config::Config;
use ripple::health::{detailed_status, health_check_url, liveness, readiness, READINESS_TIMEOUT_SECS};

#[test]
fn test_liveness_returns_ok() {
    let response = liveness();
    assert_eq!(response.code, 200);
    assert_eq!(response.status, "alive");
}

#[test]
fn readiness_follows_the_store() {
    let down = readiness(false);
    assert_eq!(down.code, 503);
    assert_eq!(down.status, "not_ready");
    assert_eq!(down.store.as_deref(), Some("unhealthy"));
    let up = readiness(true);
    assert_eq!(up.code, 200);
    assert_eq!(up.status, "ready");
    assert_eq!(up.store.as_deref(), Some("healthy"));
    assert_eq!(READINESS_TIMEOUT_SECS, 3);
}

#[test]
fn detailed_status_is_informational() {
    let config = Config::load(&Vec::new(), 2).unwrap();
    let report = detailed_status(&config, false, 42, "0.1.0");
    assert_eq!(report.code, 200);
    assert_eq!(report.status, "degraded");
    assert_eq!(report.store_status, "unhealthy");
    assert_eq!(report.store_url, "http://localhost:6333");
    assert_eq!(report.embedding_status, "not_loaded");
    assert_eq!(report.uptime_seconds, 42);
    assert_eq!(report.version, "0.1.0");
    assert_eq!(report.cache_ttl_hours, 168);
    assert_eq!(report.max_cache_size, 10_000_000);
    let healthy = detailed_status(&config, true, 0, "0.1.0");
    assert_eq!(healthy.status, "healthy");
    assert_eq!(healthy.code, 200);
}

#[test]
fn health_url_and_addresses() {
    assert_eq!(
        health_check_url("http://127.0.0.1:19999"),
        "http://127.0.0.1:19999/healthz"
    );
    assert_eq!(listen_address("::1", 8080), "::1:8080");
    let config = Config::load(&Vec::new(), 2).unwrap();
    assert_eq!(primary_address(&config), "0.0.0.0:8080");
    assert_eq!(metrics_address(&config), "0.0.0.0:9090");
    assert!(!json_logs(&config));
}

#[test]
fn json_logs_ignores_case() {
    let mut config = Config::load(&Vec::new(), 2).unwrap();
    for format in ["json", "JSON", "Json"] {
        config.log_format = format.to_string();
        assert!(config.validate().is_ok());
        assert!(json_logs(&config), "{}", format);
    }
    config.log_format = "TEXT".to_string();
    assert!(!json_logs(&config));
}

#[test]
fn validate_only_flag() {
    let args = vec!["ripple".to_string(), "--validate-config".to_string()];
    assert!(wants_validate_only(&args));
    assert!(!wants_validate_only(&vec!["ripple".to_string()]));
    assert_eq!(validation_exit_code(true), 0);
    assert_eq!(validation_exit_code(false), 1);
}
