use ripple::config::{is_log_format, is_log_level, Config};
use ripple::decimal::{Decimal, DecimalErrorKind};
use ripple::errors::ConfigurationError;
use ripple::parse::{parse_bool_text, parse_uint_text, IntErrorKind};
use ripple::settings::{env_or_default, lookup_var, parse_env_bool, parse_env_decimal, parse_env_uint};

fn dec(negative: bool, mantissa: u64, scale: u32) -> Decimal {
    Decimal {
        negative,
        mantissa,
        scale,
    }
}

/// A valid configuration with the documented defaults.
fn make_default() -> Config {
    Config {
        host: "0.0.0.0".to_string(),
        port: 8080,
        workers: 4,
        qdrant_url: "http://localhost:6333".to_string(),
        qdrant_collection_name: "cache_vectors".to_string(),
        qdrant_api_key: None,
        embedding_model_path: "./models/nomic-embed-text.onnx".to_string(),
        embedding_dimension: 768,
        embedding_batch_size: 10,
        embedding_cache_size: 10000,
        similarity_threshold: dec(false, 85, 2),
        cache_ttl_hours: 168,
        max_cache_size: 10_000_000,
        enable_l1_cache: true,
        l1_cache_size: 10_000,
        openai_api_key: None,
        anthropic_api_key: None,
        exa_api_key: None,
        log_level: "info".to_string(),
        log_format: "text".to_string(),
        log_file_path: None,
        metrics_enabled: true,
        metrics_port: 9090,
    }
}

fn vars(pairs: &[(&str, &str)]) -> Vec<(String, String)> {
    pairs
        .iter()
        .map(|(k, v)| (k.to_string(), v.to_string()))
        .collect()
}

#[test]
fn test_valid_config_validates() {
    let config = make_default();
    assert!(config.validate().is_ok());
}

#[test]
fn test_invalid_port_below_1024() {
    let mut config = make_default();
    config.port = 80;
    let result = config.validate();
    assert!(result.is_err());
    assert!(result.unwrap_err().message().contains("RIPPLE_PORT"));
}

#[test]
fn test_invalid_metrics_port_below_1024() {
    let mut config = make_default();
    config.metrics_port = 443;
    let result = config.validate();
    assert!(result.is_err());
    assert!(result.unwrap_err().message().contains("METRICS_PORT"));
}

#[test]
fn test_invalid_similarity_threshold_too_high() {
    let mut config = make_default();
    config.similarity_threshold = dec(false, 15, 1);
    let result = config.validate();
    assert!(result.is_err());
    assert!(result
        .unwrap_err()
        .message()
        .contains("SIMILARITY_THRESHOLD"));
}

#[test]
fn test_invalid_similarity_threshold_negative() {
    let mut config = make_default();
    config.similarity_threshold = dec(true, 1, 1);
    assert!(config.validate().is_err());
}

#[test]
fn test_valid_similarity_threshold_boundaries() {
    let mut config = make_default();
    config.similarity_threshold = dec(false, 0, 1);
    assert!(config.validate().is_ok());
    config.similarity_threshold = dec(false, 10, 1);
    assert!(config.validate().is_ok());
}

#[test]
fn test_invalid_ttl_zero() {
    let mut config = make_default();
    config.cache_ttl_hours = 0;
    assert!(config.validate().is_err());
}

#[test]
fn test_invalid_workers_zero() {
    let mut config = make_default();
    config.workers = 0;
    assert!(config.validate().is_err());
}

#[test]
fn test_invalid_workers_too_high() {
    let mut config = make_default();
    config.workers = 200;
    assert!(config.validate().is_err());
}

#[test]
fn test_valid_workers_boundaries() {
    let mut config = make_default();
    config.workers = 1;
    assert!(config.validate().is_ok());
    config.workers = 128;
    assert!(config.validate().is_ok());
}

#[test]
fn test_invalid_cache_size_zero() {
    let mut config = make_default();
    config.max_cache_size = 0;
    assert!(config.validate().is_err());
}

#[test]
fn test_invalid_qdrant_url_format() {
    let mut config = make_default();
    config.qdrant_url = "not-a-url".to_string();
    assert!(config.validate().is_err());
}

#[test]
fn test_valid_qdrant_url_https() {
    let mut config = make_default();
    config.qdrant_url = "https://qdrant.example.com".to_string();
    assert!(config.validate().is_ok());
}

#[test]
fn test_invalid_log_level() {
    let mut config = make_default();
    config.log_level = "verbose".to_string();
    assert!(config.validate().is_err());
}

#[test]
fn test_valid_log_levels() {
    let mut config = make_default();
    for level in &["trace", "debug", "info", "warn", "error"] {
        config.log_level = level.to_string();
        assert!(config.validate().is_ok(), "level {} should be valid", level);
    }
}

#[test]
fn test_invalid_log_format() {
    let mut config = make_default();
    config.log_format = "xml".to_string();
    assert!(config.validate().is_err());
}

#[test]
fn test_valid_log_formats() {
    let mut config = make_default();
    for fmt in &["text", "json"] {
        config.log_format = fmt.to_string();
        assert!(config.validate().is_ok());
    }
}

#[test]
fn test_invalid_collection_name_special_chars() {
    let mut config = make_default();
    config.qdrant_collection_name = "bad name!".to_string();
    assert!(config.validate().is_err());
}

#[test]
fn test_empty_collection_name() {
    let mut config = make_default();
    config.qdrant_collection_name = "".to_string();
    assert!(config.validate().is_err());
}

#[test]
fn test_valid_collection_name_with_hyphens() {
    let mut config = make_default();
    config.qdrant_collection_name = "my-collection_v2".to_string();
    assert!(config.validate().is_ok());
}

#[test]
fn test_invalid_embedding_dimension_zero() {
    let mut config = make_default();
    config.embedding_dimension = 0;
    assert!(config.validate().is_err());
}

#[test]
fn test_invalid_embedding_dimension_too_large() {
    let mut config = make_default();
    config.embedding_dimension = 5000;
    assert!(config.validate().is_err());
}

#[test]
fn test_valid_embedding_dimension_boundaries() {
    let mut config = make_default();
    config.embedding_dimension = 1;
    assert!(config.validate().is_ok());
    config.embedding_dimension = 4096;
    assert!(config.validate().is_ok());
}

#[test]
fn test_default_values_correct() {
    let config = make_default();
    assert_eq!(config.host, "0.0.0.0");
    assert_eq!(config.port, 8080);
    assert_eq!(config.qdrant_url, "http://localhost:6333");
    assert_eq!(config.qdrant_collection_name, "cache_vectors");
    assert_eq!(config.similarity_threshold, dec(false, 85, 2));
    assert_eq!(config.cache_ttl_hours, 168);
    assert_eq!(config.log_level, "info");
    assert_eq!(config.log_format, "text");
    assert_eq!(config.metrics_port, 9090);
    assert_eq!(config.embedding_dimension, 768);
    assert_eq!(config.embedding_batch_size, 10);
    assert_eq!(config.embedding_cache_size, 10000);
    assert_eq!(config.max_cache_size, 10_000_000);
    assert!(config.enable_l1_cache);
    assert_eq!(config.l1_cache_size, 10_000);
    assert!(config.metrics_enabled);
}

#[test]
fn test_parse_env_valid_u16() {
    let env = vars(&[("__TEST_PARSE_U16", "3000")]);
    let result = parse_env_uint(&env, "__TEST_PARSE_U16", 8080, u16::MAX as u64, "u16");
    assert_eq!(result.unwrap(), 3000);
}

#[test]
fn test_parse_env_invalid_u16() {
    let env = vars(&[("__TEST_PARSE_BAD", "abc")]);
    let result = parse_env_uint(&env, "__TEST_PARSE_BAD", 8080, u16::MAX as u64, "u16");
    assert!(result.is_err());
}

#[test]
fn test_parse_env_missing_uses_default() {
    let env = vars(&[]);
    let result = parse_env_uint(&env, "__TEST_PARSE_MISSING", 9999, u16::MAX as u64, "u16");
    assert_eq!(result.unwrap(), 9999);
}

#[test]
fn test_env_or_default_missing() {
    let env = vars(&[]);
    let val = env_or_default(&env, "__TEST_ENV_DEFAULT", "fallback");
    assert_eq!(val, "fallback");
}

#[test]
fn test_env_or_default_present() {
    let env = vars(&[("__TEST_ENV_PRESENT", "custom")]);
    let val = env_or_default(&env, "__TEST_ENV_PRESENT", "fallback");
    assert_eq!(val, "custom");
}

#[test]
fn load_with_no_settings_gives_documented_defaults() {
    let config = Config::load(&vars(&[]), 6).unwrap();
    assert_eq!(config.host, "0.0.0.0");
    assert_eq!(config.port, 8080);
    assert_eq!(config.workers, 6);
    assert_eq!(config.qdrant_url, "http://localhost:6333");
    assert_eq!(config.qdrant_collection_name, "cache_vectors");
    assert_eq!(config.qdrant_api_key, None);
    assert_eq!(config.embedding_model_path, "./models/nomic-embed-text.onnx");
    assert_eq!(config.embedding_dimension, 768);
    assert_eq!(config.embedding_batch_size, 10);
    assert_eq!(config.embedding_cache_size, 10000);
    assert_eq!(config.similarity_threshold, dec(false, 85, 2));
    assert_eq!(config.cache_ttl_hours, 168);
    assert_eq!(config.max_cache_size, 10_000_000);
    assert!(config.enable_l1_cache);
    assert_eq!(config.l1_cache_size, 10_000);
    assert_eq!(config.log_level, "info");
    assert_eq!(config.log_format, "text");
    assert_eq!(config.log_file_path, None);
    assert!(config.metrics_enabled);
    assert_eq!(config.metrics_port, 9090);
}

#[test]
fn load_returns_in_range_values_unchanged() {
    let env = vars(&[
        ("RIPPLE_HOST", "127.0.0.1"),
        ("RIPPLE_PORT", "65535"),
        ("RIPPLE_WORKERS", "128"),
        ("QDRANT_URL", "https://store.example"),
        ("QDRANT_COLLECTION_NAME", "my-collection_v2"),
        ("QDRANT_API_KEY", "SECRET-REDACTED"),
        ("EMBEDDING_DIMENSION", "4096"),
        ("SIMILARITY_THRESHOLD", "1.0"),
        ("CACHE_TTL_HOURS", "1"),
        ("MAX_CACHE_SIZE", "1"),
        ("ENABLE_L1_CACHE", "false"),
        ("LOG_LEVEL", "WARN"),
        ("LOG_FORMAT", "Json"),
        ("LOG_FILE_PATH", "/var/log/ripple.log"),
        ("METRICS_ENABLED", "false"),
        ("METRICS_PORT", "1024"),
    ]);
    let config = Config::load(&env, 4).unwrap();
    assert_eq!(config.host, "127.0.0.1");
    assert_eq!(config.port, 65535);
    assert_eq!(config.workers, 128);
    assert_eq!(config.qdrant_url, "https://store.example");
    assert_eq!(config.qdrant_collection_name, "my-collection_v2");
    assert_eq!(config.qdrant_api_key.as_deref(), Some("SECRET-REDACTED"));
    assert_eq!(config.embedding_dimension, 4096);
    assert_eq!(config.similarity_threshold, dec(false, 10, 1));
    assert_eq!(config.cache_ttl_hours, 1);
    assert_eq!(config.max_cache_size, 1);
    assert!(!config.enable_l1_cache);
    assert_eq!(config.log_level, "WARN");
    assert_eq!(config.log_format, "Json");
    assert_eq!(config.log_file_path.as_deref(), Some("/var/log/ripple.log"));
    assert!(!config.metrics_enabled);
    assert_eq!(config.metrics_port, 1024);
}

#[test]
fn load_rejects_malformed_port_instead_of_default() {
    let result = Config::load(&vars(&[("RIPPLE_PORT", "abc")]), 4);
    match result {
        Err(ConfigurationError::ParseError {
            field,
            value,
            expected_type,
            details,
        }) => {
            assert_eq!(field, "RIPPLE_PORT");
            assert_eq!(value, "abc");
            assert_eq!(expected_type, "u16");
            assert_eq!(details, "invalid digit found in string");
        }
        _ => panic!("expected a parse error"),
    }
}

#[test]
fn load_reports_first_malformed_setting_in_reading_order() {
    let env = vars(&[("METRICS_PORT", "x"), ("RIPPLE_WORKERS", "")]);
    let err = Config::load(&env, 4).unwrap_err();
    assert_eq!(
        err.message(),
        "Failed to parse RIPPLE_WORKERS: '' is not a valid usize (cannot parse integer from empty string)"
    );
}

#[test]
fn load_rejects_malformed_bool_and_threshold() {
    let err = Config::load(&vars(&[("ENABLE_L1_CACHE", "yes")]), 4).unwrap_err();
    assert!(err.message().contains("ENABLE_L1_CACHE"));
    let err = Config::load(&vars(&[("SIMILARITY_THRESHOLD", "0.8.5")]), 4).unwrap_err();
    assert_eq!(
        err.message(),
        "Failed to parse SIMILARITY_THRESHOLD: '0.8.5' is not a valid f64 (invalid float literal)"
    );
}

#[test]
fn load_reports_port_overflow() {
    let err = Config::load(&vars(&[("RIPPLE_PORT", "65536")]), 4).unwrap_err();
    assert!(err
        .message()
        .contains("number too large to fit in target type"));
}

#[test]
fn load_validates_after_parsing() {
    let err = Config::load(&vars(&[("RIPPLE_PORT", "80")]), 4).unwrap_err();
    assert_eq!(err.message(), "RIPPLE_PORT value '80' is out of range [1024, 65535]");
    let err = Config::load(&vars(&[("RIPPLE_WORKERS", "0")]), 4).unwrap_err();
    assert!(err.message().contains("RIPPLE_WORKERS"));
    let err = Config::load(&vars(&[]), 0).unwrap_err();
    assert!(err.message().contains("RIPPLE_WORKERS"));
}

#[test]
fn each_rule_breach_names_its_field() {
    let cases: Vec<(Box<dyn Fn(&mut Config)>, &str)> = vec![
        (Box::new(|c: &mut Config| c.port = 80), "RIPPLE_PORT"),
        (Box::new(|c: &mut Config| c.metrics_port = 80), "METRICS_PORT"),
        (
            Box::new(|c: &mut Config| c.similarity_threshold = dec(false, 15, 1)),
            "SIMILARITY_THRESHOLD",
        ),
        (Box::new(|c: &mut Config| c.cache_ttl_hours = 0), "CACHE_TTL_HOURS"),
        (Box::new(|c: &mut Config| c.workers = 200), "RIPPLE_WORKERS"),
        (Box::new(|c: &mut Config| c.max_cache_size = 0), "MAX_CACHE_SIZE"),
        (Box::new(|c: &mut Config| c.embedding_dimension = 5000), "EMBEDDING_DIMENSION"),
        (Box::new(|c: &mut Config| c.qdrant_url = "not-a-url".to_string()), "QDRANT_URL"),
        (Box::new(|c: &mut Config| c.log_level = "verbose".to_string()), "LOG_LEVEL"),
        (Box::new(|c: &mut Config| c.log_format = "xml".to_string()), "LOG_FORMAT"),
        (
            Box::new(|c: &mut Config| c.qdrant_collection_name = "".to_string()),
            "QDRANT_COLLECTION_NAME",
        ),
        (
            Box::new(|c: &mut Config| c.qdrant_collection_name = "a!".to_string()),
            "QDRANT_COLLECTION_NAME",
        ),
    ];
    for (breach, field) in cases {
        let mut config = make_default();
        breach(&mut config);
        let err = config.validate().unwrap_err();
        assert!(err.message().contains(field), "{}", field);
    }
}

#[test]
fn first_broken_rule_is_reported() {
    let mut config = make_default();
    config.log_format = "xml".to_string();
    config.port = 80;
    let err = config.validate().unwrap_err();
    assert!(err.message().contains("RIPPLE_PORT"));
}

#[test]
fn empty_collection_name_is_missing_field() {
    let mut config = make_default();
    config.qdrant_collection_name = "".to_string();
    match config.validate() {
        Err(ConfigurationError::MissingField { field }) => {
            assert_eq!(field, "QDRANT_COLLECTION_NAME")
        }
        _ => panic!("expected a missing field"),
    }
}

#[test]
fn collection_name_is_ascii_only() {
    let mut config = make_default();
    config.qdrant_collection_name = "caché".to_string();
    assert!(config.validate().is_err());
}

#[test]
fn log_level_and_format_ignore_case() {
    let mut config = make_default();
    config.log_level = "DEBUG".to_string();
    config.log_format = "JSON".to_string();
    assert!(config.validate().is_ok());
    assert!(is_log_level("warn"));
    assert!(!is_log_level("WARN"));
    assert!(is_log_format("json"));
    assert!(!is_log_format("yaml"));
}

#[test]
fn threshold_error_renders_the_value() {
    let mut config = make_default();
    config.similarity_threshold = dec(true, 1, 1);
    let err = config.validate().unwrap_err();
    assert_eq!(
        err.message(),
        "SIMILARITY_THRESHOLD value '-0.1' is out of range [0.0, 1.0]"
    );
}

#[test]
fn unsigned_integer_parsing() {
    assert_eq!(parse_uint_text("3000", 65535), Ok(3000));
    assert_eq!(parse_uint_text("+7", 65535), Ok(7));
    assert_eq!(parse_uint_text("65535", 65535), Ok(65535));
    assert_eq!(parse_uint_text("65536", 65535), Err(IntErrorKind::PosOverflow));
    assert_eq!(parse_uint_text("", 65535), Err(IntErrorKind::Empty));
    assert_eq!(parse_uint_text("+", 65535), Err(IntErrorKind::InvalidDigit));
    assert_eq!(parse_uint_text("-1", 65535), Err(IntErrorKind::InvalidDigit));
    assert_eq!(parse_uint_text("12a", 65535), Err(IntErrorKind::InvalidDigit));
    assert_eq!(parse_uint_text("99999a", 65535), Err(IntErrorKind::PosOverflow));
    assert_eq!(
        parse_uint_text("18446744073709551615", u64::MAX),
        Ok(u64::MAX)
    );
    assert_eq!(
        parse_uint_text("18446744073709551616", u64::MAX),
        Err(IntErrorKind::PosOverflow)
    );
}

#[test]
fn bool_parsing() {
    assert_eq!(parse_bool_text("true"), Some(true));
    assert_eq!(parse_bool_text("false"), Some(false));
    assert_eq!(parse_bool_text("True"), None);
    let err = parse_env_bool(&vars(&[("B", "1")]), "B", true).unwrap_err();
    assert_eq!(
        err.message(),
        "Failed to parse B: '1' is not a valid bool (provided string was not `true` or `false`)"
    );
}

#[test]
fn decimal_parsing_and_rendering() {
    assert_eq!(Decimal::parse("0.85"), Ok(dec(false, 85, 2)));
    assert_eq!(Decimal::parse("-0.1"), Ok(dec(true, 1, 1)));
    assert_eq!(Decimal::parse("+2"), Ok(dec(false, 2, 0)));
    assert_eq!(Decimal::parse(".5"), Ok(dec(false, 5, 1)));
    assert_eq!(Decimal::parse("3."), Ok(dec(false, 3, 0)));
    assert_eq!(Decimal::parse(""), Err(DecimalErrorKind::Empty));
    assert_eq!(Decimal::parse("."), Err(DecimalErrorKind::Invalid));
    assert_eq!(Decimal::parse("1e3"), Ok(dec(false, 1000, 0)));
    assert_eq!(Decimal::parse("1..2"), Err(DecimalErrorKind::Invalid));
    assert_eq!(dec(false, 85, 2).text(), "0.85");
    assert_eq!(dec(false, 15, 1).text(), "1.5");
    assert_eq!(dec(true, 1, 1).text(), "-0.1");
    assert_eq!(dec(false, 5, 3).text(), "0.005");
    assert_eq!(dec(false, 7, 0).text(), "7");
    assert_eq!(dec(false, 1, 21).text(), "0.000000000000000000001");
    assert!(dec(false, 1, 0).in_unit_interval());
    assert!(dec(true, 0, 0).in_unit_interval());
    assert!(!dec(false, 1001, 3).in_unit_interval());
    assert!(dec(false, u64::MAX, 25).in_unit_interval());
    let d = parse_env_decimal(&vars(&[("T", "0.5")]), "T", dec(false, 85, 2)).unwrap();
    assert_eq!(d, dec(false, 5, 1));
}

#[test]
fn first_matching_setting_wins() {
    let env = vars(&[("A", "1"), ("B", "2"), ("A", "3")]);
    assert_eq!(lookup_var(&env, "A"), Some("1".to_string()));
    assert_eq!(lookup_var(&env, "C"), None);
}

#[test]
fn decimal_exponents() {
    assert_eq!(Decimal::parse("5e-1"), Ok(dec(false, 5, 1)));
    assert_eq!(Decimal::parse("1E0"), Ok(dec(false, 1, 0)));
    assert_eq!(Decimal::parse("1.5e1"), Ok(dec(false, 15, 0)));
    assert_eq!(Decimal::parse("-2.5E-2"), Ok(dec(true, 25, 3)));
    assert_eq!(Decimal::parse("+8.5e+1"), Ok(dec(false, 85, 0)));
    assert_eq!(Decimal::parse("0e99"), Ok(dec(false, 0, 0)));
    assert_eq!(Decimal::parse("1e19"), Ok(dec(false, 10_000_000_000_000_000_000, 0)));
    assert_eq!(Decimal::parse("1e20"), Err(DecimalErrorKind::Invalid));
    assert_eq!(Decimal::parse("1e"), Err(DecimalErrorKind::Invalid));
    assert_eq!(Decimal::parse("1e+-2"), Err(DecimalErrorKind::Invalid));
    assert_eq!(Decimal::parse("e5"), Err(DecimalErrorKind::Invalid));
    assert_eq!(Decimal::parse("1e5e5"), Err(DecimalErrorKind::Invalid));
    assert_eq!(Decimal::parse("1e4294967296"), Err(DecimalErrorKind::Invalid));
    let config = Config::load(&vars(&[("SIMILARITY_THRESHOLD", "5e-1")]), 4).unwrap();
    assert_eq!(config.similarity_threshold, dec(false, 5, 1));
    let err = Config::load(&vars(&[("SIMILARITY_THRESHOLD", "85e-1")]), 4).unwrap_err();
    assert!(err.message().contains("SIMILARITY_THRESHOLD"));
}
