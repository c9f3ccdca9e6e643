use ripple::metrics::{register_metrics, MetricKind, Registry};

fn labels(values: &[&str]) -> Vec<String> {
    values.iter().map(|v| v.to_string()).collect()
}

fn setup_registry() -> Registry {
    let mut registry = Registry::new();
    register_metrics(&mut registry);
    registry
}

#[test]
fn test_counter_increment() {
    let mut reg = setup_registry();
    reg.counter_inc("ripple_requests_total", &labels(&["openai", "hit"]));
    let val = reg.value("ripple_requests_total", &labels(&["openai", "hit"]));
    assert!(val >= 1);
}

#[test]
fn test_gauge_update() {
    let mut reg = setup_registry();
    let none = labels(&[]);
    reg.gauge_set("ripple_active_requests", &none, 5);
    assert_eq!(reg.value("ripple_active_requests", &none), 5);
    reg.gauge_inc("ripple_active_requests", &none);
    assert_eq!(reg.value("ripple_active_requests", &none), 6);
    reg.gauge_dec("ripple_active_requests", &none);
    assert_eq!(reg.value("ripple_active_requests", &none), 5);
}

#[test]
fn test_histogram_observe() {
    let mut reg = setup_registry();
    assert!(reg.observe(
        "ripple_request_duration_seconds",
        &labels(&["openai", "miss"]),
        45_000
    ));
}

#[test]
fn test_cache_hits_counter() {
    let mut reg = setup_registry();
    reg.counter_inc("ripple_cache_hits_total", &labels(&["l1"]));
    reg.counter_inc("ripple_cache_hits_total", &labels(&["l2"]));
    assert!(reg.value("ripple_cache_hits_total", &labels(&["l1"])) >= 1);
    assert!(reg.value("ripple_cache_hits_total", &labels(&["l2"])) >= 1);
}

#[test]
fn test_cache_size_gauge() {
    let mut reg = setup_registry();
    reg.gauge_set("ripple_cache_size", &labels(&[]), 1000);
    assert_eq!(reg.value("ripple_cache_size", &labels(&[])), 1000);
}

#[test]
fn test_cost_saved_gauge() {
    let mut reg = setup_registry();
    reg.gauge_set("ripple_cost_saved_usd", &labels(&["openai"]), 123_450_000);
    let val = reg.value("ripple_cost_saved_usd", &labels(&["openai"]));
    assert_eq!(val, 123_450_000);
}

#[test]
fn test_errors_counter() {
    let mut reg = setup_registry();
    reg.counter_inc("ripple_errors_total", &labels(&["network"]));
    assert!(reg.value("ripple_errors_total", &labels(&["network"])) >= 1);
}

#[test]
fn test_metrics_encoding() {
    let mut reg = setup_registry();
    reg.counter_inc("ripple_requests_total", &labels(&["test", "miss"]));
    let output = reg.snapshot();
    assert!(output.contains("ripple_requests_total"));
}

#[test]
fn test_embedding_duration_histogram() {
    let mut reg = setup_registry();
    assert!(reg.observe("ripple_embedding_duration_seconds", &labels(&["1"]), 12_000));
}

#[test]
fn test_upstream_duration_histogram() {
    let mut reg = setup_registry();
    assert!(reg.observe(
        "ripple_upstream_duration_seconds",
        &labels(&["openai"]),
        850_000
    ));
}

#[test]
fn test_metrics_text_contains_type() {
    let mut reg = setup_registry();
    reg.counter_inc("ripple_requests_total", &labels(&["enc_test", "hit"]));
    let output = reg.snapshot();
    assert!(output.contains("# TYPE"));
}

#[test]
fn counter_incremented_twice_adds_two() {
    let mut reg = setup_registry();
    let l = labels(&["tier1"]);
    reg.counter_inc("ripple_cache_hits_total", &l);
    let before = reg.value("ripple_cache_hits_total", &l);
    reg.counter_inc("ripple_cache_hits_total", &l);
    reg.counter_inc("ripple_cache_hits_total", &l);
    assert_eq!(reg.value("ripple_cache_hits_total", &l), before + 2);
    assert_eq!(before, 1);
}

#[test]
fn gauge_set_inc_dec_returns_to_set_value() {
    let mut reg = setup_registry();
    let l = labels(&["anthropic"]);
    reg.gauge_set("ripple_cost_saved_usd", &l, -42);
    reg.gauge_inc("ripple_cost_saved_usd", &l);
    reg.gauge_dec("ripple_cost_saved_usd", &l);
    assert_eq!(reg.value("ripple_cost_saved_usd", &l), -42);
}

#[test]
fn saturating_gauge_and_wrong_use_are_refused() {
    let mut reg = setup_registry();
    let none = labels(&[]);
    reg.gauge_set("ripple_cache_size", &none, i64::MAX);
    reg.gauge_inc("ripple_cache_size", &none);
    assert_eq!(reg.value("ripple_cache_size", &none), i64::MAX);
    assert!(!reg.counter_inc("ripple_cache_size", &none));
    assert!(!reg.counter_inc("ripple_requests_total", &labels(&["only_one"])));
    assert!(!reg.counter_inc("no_such_metric", &none));
    assert!(!reg.observe("ripple_requests_total", &labels(&["a", "b"]), 1));
    assert_eq!(reg.value("ripple_requests_total", &labels(&["only_one"])), 0);
}

#[test]
fn registering_twice_is_tolerated() {
    let mut reg = setup_registry();
    let once = reg.snapshot();
    register_metrics(&mut reg);
    assert_eq!(reg.snapshot(), once);
    assert!(!reg.register(
        "ripple_errors_total",
        "again",
        MetricKind::Counter,
        labels(&[]),
        0,
        vec![]
    ));
}

#[test]
fn snapshot_lists_every_instrument() {
    let reg = setup_registry();
    let output = reg.snapshot();
    for (name, kind) in [
        ("ripple_requests_total", "counter"),
        ("ripple_active_requests", "gauge"),
        ("ripple_request_duration_seconds", "histogram"),
        ("ripple_cache_hits_total", "counter"),
        ("ripple_cache_misses_total", "counter"),
        ("ripple_cache_size", "gauge"),
        ("ripple_cache_evictions_total", "counter"),
        ("ripple_embedding_duration_seconds", "histogram"),
        ("ripple_upstream_duration_seconds", "histogram"),
        ("ripple_upstream_errors_total", "counter"),
        ("ripple_cost_saved_usd", "gauge"),
        ("ripple_errors_total", "counter"),
    ] {
        assert!(output.contains(&format!("# TYPE {} {}\n", name, kind)), "{}", name);
        assert!(output.contains(&format!("# HELP {} ", name)), "{}", name);
    }
    assert!(output.contains("ripple_active_requests 0\n"));
}

#[test]
fn exposition_of_a_counter() {
    let mut reg = Registry::new();
    assert!(reg.register("hits", "Hits", MetricKind::Counter, labels(&["tier", "zone"]), 0, vec![]));
    reg.counter_inc("hits", &labels(&["l1", "eu"]));
    reg.counter_inc("hits", &labels(&["l1", "eu"]));
    reg.counter_inc("hits", &labels(&["l2", "us"]));
    assert_eq!(
        reg.snapshot(),
        "# HELP hits Hits\n# TYPE hits counter\nhits{tier=\"l1\",zone=\"eu\"} 2\nhits{tier=\"l2\",zone=\"us\"} 1\n"
    );
}

#[test]
fn histogram_buckets_are_cumulative_and_inclusive() {
    let mut reg = Registry::new();
    assert!(reg.register(
        "lat",
        "Latency",
        MetricKind::Histogram,
        labels(&[]),
        6,
        vec![1000, 5000]
    ));
    reg.observe("lat", &labels(&[]), 1000);
    reg.observe("lat", &labels(&[]), 3000);
    reg.observe("lat", &labels(&[]), 9000);
    assert_eq!(reg.observation_count("lat", &labels(&[])), 3);
    assert_eq!(
        reg.snapshot(),
        "# HELP lat Latency\n# TYPE lat histogram\n\
         lat_bucket{le=\"0.001000\"} 1\n\
         lat_bucket{le=\"0.005000\"} 2\n\
         lat_bucket{le=\"+Inf\"} 3\n\
         lat_sum 0.013000\n\
         lat_count 3\n"
    );
}

#[test]
fn bounds_must_increase() {
    let mut reg = Registry::new();
    assert!(!reg.register("h", "H", MetricKind::Histogram, labels(&[]), 0, vec![5, 5]));
    assert_eq!(reg.snapshot(), "");
}

#[test]
fn gauge_renders_with_its_scale() {
    let mut reg = setup_registry();
    reg.gauge_set("ripple_cost_saved_usd", &labels(&["openai"]), 123_450_000);
    assert!(reg
        .snapshot()
        .contains("ripple_cost_saved_usd{provider=\"openai\"} 123.450000\n"));
}

#[test]
fn observation_adds_to_count_and_sum() {
    let mut reg = setup_registry();
    let l = labels(&["openai", "miss"]);
    let count = reg.observation_count("ripple_request_duration_seconds", &l);
    let sum = reg.observation_sum("ripple_request_duration_seconds", &l);
    assert!(reg.observe("ripple_request_duration_seconds", &l, 45_000));
    assert_eq!(reg.observation_count("ripple_request_duration_seconds", &l), count + 1);
    assert_eq!(reg.observation_sum("ripple_request_duration_seconds", &l), sum + 45_000);
    assert!(reg
        .snapshot()
        .contains("ripple_request_duration_seconds_sum{endpoint=\"openai\",cache_status=\"miss\"} 0.045000\n"));
}

#[test]
fn exposition_escapes_help_and_label_values() {
    let mut reg = Registry::new();
    assert!(reg.register("x", "a\\b\nc \"q\"", MetricKind::Counter, labels(&["l"]), 0, vec![]));
    reg.counter_inc("x", &labels(&["q\"\\\n"]));
    assert_eq!(
        reg.snapshot(),
        "# HELP x a\\\\b\\nc \"q\"\n# TYPE x counter\nx{l=\"q\\\"\\\\\\n\"} 1\n"
    );
}
