use ripple::errors::{
    AuthenticationError, CacheError, ConfigurationError, EmbeddingError, NetworkError,
    RippleError, UpstreamApiError, ValidationError, VectorStoreError,
};

#[test]
fn test_configuration_error_missing_field() {
    let err = ConfigurationError::MissingField {
        field: "API_KEY".to_string(),
    };
    assert!(err.message().contains("API_KEY"));
}

#[test]
fn test_configuration_error_invalid_range() {
    let err = ConfigurationError::InvalidRange {
        field: "PORT".to_string(),
        value: "80".to_string(),
        min: "1024".to_string(),
        max: "65535".to_string(),
    };
    assert!(err.message().contains("80"));
    assert!(err.message().contains("1024"));
}

#[test]
fn test_configuration_error_parse() {
    let err = ConfigurationError::ParseError {
        field: "PORT".to_string(),
        value: "abc".to_string(),
        expected_type: "u16".to_string(),
        details: "invalid digit".to_string(),
    };
    assert!(err.message().contains("abc"));
}

#[test]
fn test_configuration_error_format() {
    let err = ConfigurationError::InvalidFormat {
        field: "URL".to_string(),
        value: "bad".to_string(),
        expected: "http://".to_string(),
    };
    assert!(err.message().contains("bad"));
}

#[test]
fn test_network_error_connection_failed() {
    let err = NetworkError::ConnectionFailed {
        endpoint: "localhost:6333".to_string(),
        details: "connection refused".to_string(),
    };
    assert!(err.message().contains("localhost:6333"));
}

#[test]
fn test_network_error_timeout() {
    let err = NetworkError::Timeout {
        endpoint: "api.openai.com".to_string(),
        timeout_ms: 5000,
    };
    assert!(err.message().contains("5000ms"));
}

#[test]
fn test_cache_error_read() {
    let err = CacheError::ReadFailed {
        key: "test_key".to_string(),
        details: "corruption".to_string(),
    };
    assert!(err.message().contains("test_key"));
}

#[test]
fn test_cache_error_capacity() {
    let err = CacheError::CapacityExceeded { max_size: 1000 };
    assert!(err.message().contains("1000"));
}

#[test]
fn test_embedding_error_model_load() {
    let err = EmbeddingError::ModelLoadFailed {
        path: "/models/test.onnx".to_string(),
        details: "file not found".to_string(),
    };
    assert!(err.message().contains("/models/test.onnx"));
}

#[test]
fn test_embedding_error_dimension_mismatch() {
    let err = EmbeddingError::DimensionMismatch {
        expected: 768,
        actual: 384,
    };
    assert!(err.message().contains("768"));
    assert!(err.message().contains("384"));
}

#[test]
fn test_vector_store_error_connection() {
    let err = VectorStoreError::ConnectionFailed {
        details: "refused".to_string(),
    };
    assert!(err.message().contains("refused"));
}

#[test]
fn test_upstream_api_error_rate_limited() {
    let err = UpstreamApiError::RateLimited {
        provider: "OpenAI".to_string(),
        retry_after_secs: 60,
    };
    assert!(err.message().contains("60s"));
}

#[test]
fn test_auth_error_missing_key() {
    let err = AuthenticationError::MissingApiKey;
    assert!(err.message().contains("Missing API key"));
}

#[test]
fn test_validation_error_missing_field() {
    let err = ValidationError::MissingField {
        field: "messages".to_string(),
    };
    assert!(err.message().contains("messages"));
}

#[test]
fn test_ripple_error_from_config() {
    let cfg_err = ConfigurationError::MissingField {
        field: "test".to_string(),
    };
    let ripple_err: RippleError = cfg_err.into();
    assert!(ripple_err.message().contains("Configuration error"));
}

#[test]
fn test_ripple_error_from_network() {
    let net_err = NetworkError::Timeout {
        endpoint: "host".to_string(),
        timeout_ms: 100,
    };
    let ripple_err: RippleError = net_err.into();
    assert!(ripple_err.message().contains("Network error"));
}

#[test]
fn test_ripple_error_from_cache() {
    let cache_err = CacheError::ReadFailed {
        key: "k".to_string(),
        details: "d".to_string(),
    };
    let ripple_err: RippleError = cache_err.into();
    assert!(ripple_err.message().contains("Cache error"));
}

#[test]
fn test_ripple_error_from_embedding() {
    let emb_err = EmbeddingError::InferenceFailed {
        details: "oom".to_string(),
    };
    let ripple_err: RippleError = emb_err.into();
    assert!(ripple_err.message().contains("Embedding error"));
}

#[test]
fn test_ripple_error_from_vector_store() {
    let vs_err = VectorStoreError::SearchFailed {
        details: "timeout".to_string(),
    };
    let ripple_err: RippleError = vs_err.into();
    assert!(ripple_err.message().contains("Vector store error"));
}

#[test]
fn test_ripple_error_from_auth() {
    let auth_err = AuthenticationError::InvalidApiKey;
    let ripple_err: RippleError = auth_err.into();
    assert!(ripple_err.message().contains("Authentication error"));
}

#[test]
fn test_ripple_error_from_validation() {
    let val_err = ValidationError::InvalidFormat {
        details: "bad json".to_string(),
    };
    let ripple_err: RippleError = val_err.into();
    assert!(ripple_err.message().contains("Validation error"));
}

#[test]
fn test_ripple_error_from_upstream() {
    let up_err = UpstreamApiError::InvalidApiKey {
        provider: "Anthropic".to_string(),
    };
    let ripple_err: RippleError = up_err.into();
    assert!(ripple_err.message().contains("Upstream API error"));
}

#[test]
fn test_ripple_error_internal() {
    let err = RippleError::Internal("something broke".to_string());
    assert!(err.message().contains("something broke"));
}

fn load_config() -> Result<(), ConfigurationError> {
    Err(ConfigurationError::MissingField {
        field: "KEY".to_string(),
    })
}

fn do_work() -> Result<(), RippleError> {
    load_config()?;
    Ok(())
}

#[test]
fn test_error_chain_config_to_ripple() {
    let result = do_work();
    assert!(result.is_err());
    let err = result.unwrap_err();
    assert!(err.message().contains("KEY"));
}

#[test]
fn test_network_tls_error() {
    let err = NetworkError::TlsError {
        endpoint: "api.example.com".to_string(),
        details: "certificate expired".to_string(),
    };
    assert!(err.message().contains("TLS"));
}

#[test]
fn test_network_dns_error() {
    let err = NetworkError::DnsError {
        host: "invalid.host".to_string(),
        details: "NXDOMAIN".to_string(),
    };
    assert!(err.message().contains("DNS"));
}

#[test]
fn exact_messages_embed_every_field() {
    let timeout = NetworkError::Timeout {
        endpoint: "api.openai.com".to_string(),
        timeout_ms: 5000,
    };
    assert_eq!(timeout.message(), "Request timed out after 5000ms to api.openai.com");
    let range = ConfigurationError::InvalidRange {
        field: "PORT".to_string(),
        value: "80".to_string(),
        min: "1024".to_string(),
        max: "65535".to_string(),
    };
    assert_eq!(range.message(), "PORT value '80' is out of range [1024, 65535]");
    let dims = EmbeddingError::DimensionMismatch {
        expected: 768,
        actual: 0,
    };
    assert_eq!(dims.message(), "Invalid embedding dimensions: expected 768, got 0");
    let perms = AuthenticationError::InsufficientPermissions {
        tenant_id: "t1".to_string(),
    };
    assert_eq!(perms.message(), "Insufficient permissions for tenant 't1'");
    let big = ValidationError::ValueTooLarge {
        field: "max_tokens".to_string(),
        max: "4096".to_string(),
    };
    assert_eq!(big.message(), "Field 'max_tokens' value too large: max 4096");
    let capacity = CacheError::CapacityExceeded {
        max_size: 18446744073709551615,
    };
    assert_eq!(
        capacity.message(),
        "Cache capacity exceeded (max: 18446744073709551615)"
    );
}

#[test]
fn unified_message_keeps_subsystem_message() {
    let inner = UpstreamApiError::RateLimited {
        provider: "OpenAI".to_string(),
        retry_after_secs: 60,
    };
    let text = inner.message();
    let unified: RippleError = inner.into();
    assert_eq!(unified.message(), format!("Upstream API error: {}", text));
    assert!(unified.message().contains(&text));
    let store = VectorStoreError::CollectionNotFound {
        collection: "cache_vectors".to_string(),
    };
    let text = store.message();
    let unified = RippleError::from(store);
    assert_eq!(unified.message(), "Vector store error: Collection 'cache_vectors' not found");
    assert!(unified.message().contains(&text));
}

#[test]
fn internal_message_is_verbatim() {
    let err = RippleError::Internal("disk full".to_string());
    assert_eq!(err.message(), "disk full");
}
