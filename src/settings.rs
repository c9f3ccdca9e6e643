//! Reading the configuration from named settings, as the process environment
//! gives them: each value is taken as given, parsed, or replaced by its
//! default when the setting is absent.
use vstd::prelude::*;

use crate::config::{opt_text, Config, ConfigModel};
use crate::decimal::{parse_decimal, Decimal, DecimalErrorKind};
use crate::errors::ConfigurationError;
use crate::parse::{
    lemma_dec_parses, parse_bool, parse_bool_text, parse_uint, parse_uint_text, IntErrorKind,
};
use crate::text::dec;
use crate::text::text_eq;

verus! {

/// The value of the first setting named `key`.
pub open spec fn lookup(vars: Seq<(String, String)>, key: Seq<char>) -> Option<Seq<char>>
    decreases vars.len(),
{
    if vars.len() == 0 {
        None
    } else if vars[0].0@ == key {
        Some(vars[0].1@)
    } else {
        lookup(vars.drop_first(), key)
    }
}

/// Finds the value of the first setting named `key`.
pub fn lookup_var(vars: &Vec<(String, String)>, key: &str) -> (r: Option<String>)
    ensures
        opt_text(r) == lookup(vars@, key@),
{
    let mut i: usize = 0;
    assert(vars@.skip(0) =~= vars@);
    while i < vars.len()
        invariant
            i <= vars@.len(),
            lookup(vars@, key@) == lookup(vars@.skip(i as int), key@),
        decreases vars@.len() - i,
    {
        assert(vars@.skip(i as int).drop_first() =~= vars@.skip(i + 1));
        if text_eq(vars[i].0.as_str(), key) {
            return Some(vars[i].1.clone());
        }
        i = i + 1;
    }
    None
}

/// A text setting: its value, or `default` when absent.
pub open spec fn text_or(vars: Seq<(String, String)>, key: Seq<char>, default: Seq<char>) -> Seq<
    char,
> {
    match lookup(vars, key) {
        Some(v) => v,
        None => default,
    }
}

/// Reads a text setting, falling back to `default`.
pub fn env_or_default(vars: &Vec<(String, String)>, key: &str, default: &str) -> (r: String)
    ensures
        r@ == text_or(vars@, key@, default@),
{
    match lookup_var(vars, key) {
        Some(v) => v,
        None => String::from_str(default),
    }
}

/// What parsing says of an unsigned setting that is present and malformed;
/// `None` when it is absent or parses.
#[verifier::opaque]
pub open spec fn int_complaint(vars: Seq<(String, String)>, key: Seq<char>, max: nat) -> Option<
    Seq<char>,
> {
    match lookup(vars, key) {
        Some(v) => match parse_uint(v, max) {
            Ok(_) => None,
            Err(k) => Some(int_error_text(k)),
        },
        None => None,
    }
}

/// The value of an unsigned setting: parsed when present, else `default`.
#[verifier::opaque]
pub open spec fn uint_or(vars: Seq<(String, String)>, key: Seq<char>, default: nat, max: nat) -> nat {
    match lookup(vars, key) {
        Some(v) => match parse_uint(v, max) {
            Ok(n) => n,
            Err(_) => default,
        },
        None => default,
    }
}

#[verifier::opaque]
pub open spec fn bool_complaint(vars: Seq<(String, String)>, key: Seq<char>) -> Option<Seq<char>> {
    match lookup(vars, key) {
        Some(v) => match parse_bool(v) {
            Some(_) => None,
            None => Some(bool_error_text()),
        },
        None => None,
    }
}

#[verifier::opaque]
pub open spec fn bool_or(vars: Seq<(String, String)>, key: Seq<char>, default: bool) -> bool {
    match lookup(vars, key) {
        Some(v) => match parse_bool(v) {
            Some(b) => b,
            None => default,
        },
        None => default,
    }
}

#[verifier::opaque]
pub open spec fn decimal_complaint(vars: Seq<(String, String)>, key: Seq<char>) -> Option<
    Seq<char>,
> {
    match lookup(vars, key) {
        Some(v) => match parse_decimal(v) {
            Ok(_) => None,
            Err(k) => Some(decimal_error_text(k)),
        },
        None => None,
    }
}

#[verifier::opaque]
pub open spec fn decimal_or(vars: Seq<(String, String)>, key: Seq<char>, default: Decimal) -> Decimal {
    match lookup(vars, key) {
        Some(v) => match parse_decimal(v) {
            Ok(d) => d,
            Err(_) => default,
        },
        None => default,
    }
}

pub open spec fn int_error_text(k: IntErrorKind) -> Seq<char> {
    match k {
        IntErrorKind::Empty => "cannot parse integer from empty string"@,
        IntErrorKind::InvalidDigit => "invalid digit found in string"@,
        IntErrorKind::PosOverflow => "number too large to fit in target type"@,
    }
}

pub open spec fn bool_error_text() -> Seq<char> {
    "provided string was not `true` or `false`"@
}

pub open spec fn decimal_error_text(k: DecimalErrorKind) -> Seq<char> {
    match k {
        DecimalErrorKind::Empty => "cannot parse float from empty string"@,
        DecimalErrorKind::Invalid => "invalid float literal"@,
    }
}

pub open spec fn is_parse_error(
    e: ConfigurationError,
    field: Seq<char>,
    value: Seq<char>,
    expected_type: Seq<char>,
    details: Seq<char>,
) -> bool {
    e matches ConfigurationError::ParseError { field: f, value: v, expected_type: t, details: d }
        && f@ == field && v@ == value && t@ == expected_type && d@ == details
}

fn int_error_message(k: IntErrorKind) -> (r: String)
    ensures
        r@ == int_error_text(k),
{
    match k {
        IntErrorKind::Empty => String::from_str("cannot parse integer from empty string"),
        IntErrorKind::InvalidDigit => String::from_str("invalid digit found in string"),
        IntErrorKind::PosOverflow => String::from_str("number too large to fit in target type"),
    }
}

/// Reads an unsigned setting no larger than `max`, falling back to
/// `default`. A present value that does not parse is an error, never the
/// default.
pub fn parse_env_uint(
    vars: &Vec<(String, String)>,
    key: &str,
    default: u64,
    max: u64,
    kind_name: &str,
) -> (r: Result<u64, ConfigurationError>)
    requires
        default <= max,
    ensures
        match int_complaint(vars@, key@, max as nat) {
            None => r matches Ok(v) && v as nat == uint_or(vars@, key@, default as nat, max as nat)
                && v <= max,
            Some(d) => r is Err && is_parse_error(
                r->Err_0,
                key@,
                lookup(vars@, key@)->Some_0,
                kind_name@,
                d,
            ),
        },
{
    reveal(int_complaint);
    reveal(uint_or);
    match lookup_var(vars, key) {
        None => Ok(default),
        Some(v) => match parse_uint_text(v.as_str(), max) {
            Ok(n) => Ok(n),
            Err(k) => Err(
                ConfigurationError::ParseError {
                    field: String::from_str(key),
                    value: v,
                    expected_type: String::from_str(kind_name),
                    details: int_error_message(k),
                },
            ),
        },
    }
}

/// Reads a boolean setting (`true` or `false`), falling back to `default`.
pub fn parse_env_bool(vars: &Vec<(String, String)>, key: &str, default: bool) -> (r: Result<
    bool,
    ConfigurationError,
>)
    ensures
        match bool_complaint(vars@, key@) {
            None => r == Ok::<bool, ConfigurationError>(bool_or(vars@, key@, default)),
            Some(d) => r is Err && is_parse_error(
                r->Err_0,
                key@,
                lookup(vars@, key@)->Some_0,
                "bool"@,
                d,
            ),
        },
{
    reveal(bool_complaint);
    reveal(bool_or);
    match lookup_var(vars, key) {
        None => Ok(default),
        Some(v) => match parse_bool_text(v.as_str()) {
            Some(b) => Ok(b),
            None => Err(
                ConfigurationError::ParseError {
                    field: String::from_str(key),
                    value: v,
                    expected_type: String::from_str("bool"),
                    details: String::from_str("provided string was not `true` or `false`"),
                },
            ),
        },
    }
}

/// Reads a decimal setting, falling back to `default`.
pub fn parse_env_decimal(vars: &Vec<(String, String)>, key: &str, default: Decimal) -> (r: Result<
    Decimal,
    ConfigurationError,
>)
    ensures
        match decimal_complaint(vars@, key@) {
            None => r == Ok::<Decimal, ConfigurationError>(decimal_or(vars@, key@, default)),
            Some(d) => r is Err && is_parse_error(
                r->Err_0,
                key@,
                lookup(vars@, key@)->Some_0,
                "f64"@,
                d,
            ),
        },
{
    reveal(decimal_complaint);
    reveal(decimal_or);
    match lookup_var(vars, key) {
        None => Ok(default),
        Some(v) => match Decimal::parse(v.as_str()) {
            Ok(d) => Ok(d),
            Err(k) => {
                let details = match k {
                    DecimalErrorKind::Empty => String::from_str(
                        "cannot parse float from empty string",
                    ),
                    DecimalErrorKind::Invalid => String::from_str("invalid float literal"),
                };
                Err(
                    ConfigurationError::ParseError {
                        field: String::from_str(key),
                        value: v,
                        expected_type: String::from_str("f64"),
                        details,
                    },
                )
            },
        },
    }
}

/// The settings that are parsed, in the order in which they are read.
#[derive(Debug, Clone, Copy, PartialEq, Eq, Structural)]
pub enum Setting {
    Port,
    Workers,
    EmbeddingDimension,
    EmbeddingBatchSize,
    EmbeddingCacheSize,
    SimilarityThreshold,
    CacheTtlHours,
    MaxCacheSize,
    EnableL1Cache,
    L1CacheSize,
    MetricsEnabled,
    MetricsPort,
}

pub open spec fn setting_key(s: Setting) -> Seq<char> {
    match s {
        Setting::Port => "RIPPLE_PORT"@,
        Setting::Workers => "RIPPLE_WORKERS"@,
        Setting::EmbeddingDimension => "EMBEDDING_DIMENSION"@,
        Setting::EmbeddingBatchSize => "EMBEDDING_BATCH_SIZE"@,
        Setting::EmbeddingCacheSize => "EMBEDDING_CACHE_SIZE"@,
        Setting::SimilarityThreshold => "SIMILARITY_THRESHOLD"@,
        Setting::CacheTtlHours => "CACHE_TTL_HOURS"@,
        Setting::MaxCacheSize => "MAX_CACHE_SIZE"@,
        Setting::EnableL1Cache => "ENABLE_L1_CACHE"@,
        Setting::L1CacheSize => "L1_CACHE_SIZE"@,
        Setting::MetricsEnabled => "METRICS_ENABLED"@,
        Setting::MetricsPort => "METRICS_PORT"@,
    }
}

/// The name of the type that a setting's value is parsed as.
pub open spec fn setting_kind(s: Setting) -> Seq<char> {
    match s {
        Setting::Port | Setting::MetricsPort => "u16"@,
        Setting::CacheTtlHours => "u64"@,
        Setting::SimilarityThreshold => "f64"@,
        Setting::EnableL1Cache | Setting::MetricsEnabled => "bool"@,
        _ => "usize"@,
    }
}

/// The largest value of an integer setting.
pub open spec fn setting_max(s: Setting) -> nat {
    match s {
        Setting::Port | Setting::MetricsPort => u16::MAX as nat,
        Setting::CacheTtlHours => u64::MAX as nat,
        _ => usize::MAX as nat,
    }
}

pub open spec fn default_threshold() -> Decimal {
    Decimal { negative: false, mantissa: 85, scale: 2 }
}

/// What the parser says of a setting that is present but malformed; `None`
/// when the setting is absent or parses.
pub open spec fn parse_complaint(vars: Seq<(String, String)>, s: Setting) -> Option<Seq<char>> {
    let key = setting_key(s);
    match s {
        Setting::SimilarityThreshold => decimal_complaint(vars, key),
        Setting::EnableL1Cache | Setting::MetricsEnabled => bool_complaint(vars, key),
        _ => int_complaint(vars, key, setting_max(s)),
    }
}

pub open spec fn fails(vars: Seq<(String, String)>, s: Setting) -> bool {
    parse_complaint(vars, s) is Some
}

/// The first setting, in reading order, whose value does not parse.
pub open spec fn first_parse_failure(vars: Seq<(String, String)>) -> Option<Setting> {
    if fails(vars, Setting::Port) {
        Some(Setting::Port)
    } else if fails(vars, Setting::Workers) {
        Some(Setting::Workers)
    } else if fails(vars, Setting::EmbeddingDimension) {
        Some(Setting::EmbeddingDimension)
    } else if fails(vars, Setting::EmbeddingBatchSize) {
        Some(Setting::EmbeddingBatchSize)
    } else if fails(vars, Setting::EmbeddingCacheSize) {
        Some(Setting::EmbeddingCacheSize)
    } else if fails(vars, Setting::SimilarityThreshold) {
        Some(Setting::SimilarityThreshold)
    } else if fails(vars, Setting::CacheTtlHours) {
        Some(Setting::CacheTtlHours)
    } else if fails(vars, Setting::MaxCacheSize) {
        Some(Setting::MaxCacheSize)
    } else if fails(vars, Setting::EnableL1Cache) {
        Some(Setting::EnableL1Cache)
    } else if fails(vars, Setting::L1CacheSize) {
        Some(Setting::L1CacheSize)
    } else if fails(vars, Setting::MetricsEnabled) {
        Some(Setting::MetricsEnabled)
    } else if fails(vars, Setting::MetricsPort) {
        Some(Setting::MetricsPort)
    } else {
        None
    }
}

/// Whether `e` reports that setting `s` does not parse.
pub open spec fn reports_parse_failure(
    vars: Seq<(String, String)>,
    s: Setting,
    e: ConfigurationError,
) -> bool {
    is_parse_error(
        e,
        setting_key(s),
        lookup(vars, setting_key(s))->Some_0,
        setting_kind(s),
        parse_complaint(vars, s)->Some_0,
    )
}

/// The configuration that the settings describe, each absent setting taking
/// its default (`workers` defaults to `workers_default`).
pub open spec fn read_model(vars: Seq<(String, String)>, workers_default: usize) -> ConfigModel {
    ConfigModel {
        host: text_or(vars, "RIPPLE_HOST"@, "0.0.0.0"@),
        port: uint_or(vars, "RIPPLE_PORT"@, 8080, u16::MAX as nat) as u16,
        workers: uint_or(vars, "RIPPLE_WORKERS"@, workers_default as nat, usize::MAX as nat) as usize,
        qdrant_url: text_or(vars, "QDRANT_URL"@, "http://localhost:6333"@),
        qdrant_collection_name: text_or(vars, "QDRANT_COLLECTION_NAME"@, "cache_vectors"@),
        qdrant_api_key: lookup(vars, "QDRANT_API_KEY"@),
        embedding_model_path: text_or(
            vars,
            "EMBEDDING_MODEL_PATH"@,
            "./models/nomic-embed-text.onnx"@,
        ),
        embedding_dimension: uint_or(vars, "EMBEDDING_DIMENSION"@, 768, usize::MAX as nat) as usize,
        embedding_batch_size: uint_or(vars, "EMBEDDING_BATCH_SIZE"@, 10, usize::MAX as nat) as usize,
        embedding_cache_size: uint_or(vars, "EMBEDDING_CACHE_SIZE"@, 10000, usize::MAX as nat) as usize,
        similarity_threshold: decimal_or(vars, "SIMILARITY_THRESHOLD"@, default_threshold()),
        cache_ttl_hours: uint_or(vars, "CACHE_TTL_HOURS"@, 168, u64::MAX as nat) as u64,
        max_cache_size: uint_or(vars, "MAX_CACHE_SIZE"@, 10_000_000, usize::MAX as nat) as usize,
        enable_l1_cache: bool_or(vars, "ENABLE_L1_CACHE"@, true),
        l1_cache_size: uint_or(vars, "L1_CACHE_SIZE"@, 10_000, usize::MAX as nat) as usize,
        openai_api_key: lookup(vars, "OPENAI_API_KEY"@),
        anthropic_api_key: lookup(vars, "ANTHROPIC_API_KEY"@),
        exa_api_key: lookup(vars, "EXA_API_KEY"@),
        log_level: text_or(vars, "LOG_LEVEL"@, "info"@),
        log_format: text_or(vars, "LOG_FORMAT"@, "text"@),
        log_file_path: lookup(vars, "LOG_FILE_PATH"@),
        metrics_enabled: bool_or(vars, "METRICS_ENABLED"@, true),
        metrics_port: uint_or(vars, "METRICS_PORT"@, 9090, u16::MAX as nat) as u16,
    }
}

impl Config {
    /// Reads every setting from `vars` (the process environment, in order),
    /// then validates. The first setting that is present but does not parse
    /// is reported; otherwise the first broken rule; otherwise the
    /// configuration that the settings describe is returned.
    pub fn load(vars: &Vec<(String, String)>, workers_default: usize) -> (r: Result<
        Config,
        ConfigurationError,
    >)
        ensures
            match first_parse_failure(vars@) {
                Some(s) => r is Err && reports_parse_failure(vars@, s, r->Err_0),
                None => match read_model(vars@, workers_default).first_failure() {
                    None => r is Ok && r->Ok_0@ == read_model(vars@, workers_default),
                    Some(rule) => r is Err && read_model(vars@, workers_default).reports(
                        rule,
                        r->Err_0,
                    ),
                },
            },
    {
        let host = env_or_default(vars, "RIPPLE_HOST", "0.0.0.0");
        let port = parse_env_uint(vars, "RIPPLE_PORT", 8080, u16::MAX as u64, "u16")? as u16;
        let workers = parse_env_uint(
            vars,
            "RIPPLE_WORKERS",
            workers_default as u64,
            usize::MAX as u64,
            "usize",
        )? as usize;
        let qdrant_url = env_or_default(vars, "QDRANT_URL", "http://localhost:6333");
        let qdrant_collection_name = env_or_default(vars, "QDRANT_COLLECTION_NAME", "cache_vectors");
        let qdrant_api_key = lookup_var(vars, "QDRANT_API_KEY");
        let embedding_model_path = env_or_default(
            vars,
            "EMBEDDING_MODEL_PATH",
            "./models/nomic-embed-text.onnx",
        );
        let embedding_dimension = parse_env_uint(
            vars,
            "EMBEDDING_DIMENSION",
            768,
            usize::MAX as u64,
            "usize",
        )? as usize;
        let embedding_batch_size = parse_env_uint(
            vars,
            "EMBEDDING_BATCH_SIZE",
            10,
            usize::MAX as u64,
            "usize",
        )? as usize;
        let embedding_cache_size = parse_env_uint(
            vars,
            "EMBEDDING_CACHE_SIZE",
            10000,
            usize::MAX as u64,
            "usize",
        )? as usize;
        let similarity_threshold = parse_env_decimal(
            vars,
            "SIMILARITY_THRESHOLD",
            Decimal { negative: false, mantissa: 85, scale: 2 },
        )?;
        let cache_ttl_hours = parse_env_uint(vars, "CACHE_TTL_HOURS", 168, u64::MAX, "u64")?;
        let max_cache_size = parse_env_uint(
            vars,
            "MAX_CACHE_SIZE",
            10_000_000,
            usize::MAX as u64,
            "usize",
        )? as usize;
        let enable_l1_cache = parse_env_bool(vars, "ENABLE_L1_CACHE", true)?;
        let l1_cache_size = parse_env_uint(
            vars,
            "L1_CACHE_SIZE",
            10_000,
            usize::MAX as u64,
            "usize",
        )? as usize;
        let openai_api_key = lookup_var(vars, "OPENAI_API_KEY");
        let anthropic_api_key = lookup_var(vars, "ANTHROPIC_API_KEY");
        let exa_api_key = lookup_var(vars, "EXA_API_KEY");
        let log_level = env_or_default(vars, "LOG_LEVEL", "info");
        let log_format = env_or_default(vars, "LOG_FORMAT", "text");
        let log_file_path = lookup_var(vars, "LOG_FILE_PATH");
        let metrics_enabled = parse_env_bool(vars, "METRICS_ENABLED", true)?;
        let metrics_port = parse_env_uint(vars, "METRICS_PORT", 9090, u16::MAX as u64, "u16")? as u16;
        let config = Config {
            host,
            port,
            workers,
            qdrant_url,
            qdrant_collection_name,
            qdrant_api_key,
            embedding_model_path,
            embedding_dimension,
            embedding_batch_size,
            embedding_cache_size,
            similarity_threshold,
            cache_ttl_hours,
            max_cache_size,
            enable_l1_cache,
            l1_cache_size,
            openai_api_key,
            anthropic_api_key,
            exa_api_key,
            log_level,
            log_format,
            log_file_path,
            metrics_enabled,
            metrics_port,
        };
        assert(config@ == read_model(vars@, workers_default));
        config.validate()?;
        Ok(config)
    }
}

/// Each absent setting that has a default takes exactly that default.
pub proof fn lemma_absent_settings_take_defaults(vars: Seq<(String, String)>, workers_default: usize)
    ensures
        lookup(vars, "RIPPLE_HOST"@) is None ==> read_model(vars, workers_default).host
            == "0.0.0.0"@,
        lookup(vars, "RIPPLE_PORT"@) is None ==> read_model(vars, workers_default).port == 8080,
        lookup(vars, "RIPPLE_WORKERS"@) is None ==> read_model(vars, workers_default).workers
            == workers_default,
        lookup(vars, "QDRANT_URL"@) is None ==> read_model(vars, workers_default).qdrant_url
            == "http://localhost:6333"@,
        lookup(vars, "QDRANT_COLLECTION_NAME"@) is None ==> read_model(
            vars,
            workers_default,
        ).qdrant_collection_name == "cache_vectors"@,
        lookup(vars, "EMBEDDING_MODEL_PATH"@) is None ==> read_model(
            vars,
            workers_default,
        ).embedding_model_path == "./models/nomic-embed-text.onnx"@,
        lookup(vars, "EMBEDDING_DIMENSION"@) is None ==> read_model(
            vars,
            workers_default,
        ).embedding_dimension == 768,
        lookup(vars, "EMBEDDING_BATCH_SIZE"@) is None ==> read_model(
            vars,
            workers_default,
        ).embedding_batch_size == 10,
        lookup(vars, "EMBEDDING_CACHE_SIZE"@) is None ==> read_model(
            vars,
            workers_default,
        ).embedding_cache_size == 10000,
        lookup(vars, "SIMILARITY_THRESHOLD"@) is None ==> read_model(
            vars,
            workers_default,
        ).similarity_threshold == default_threshold(),
        lookup(vars, "CACHE_TTL_HOURS"@) is None ==> read_model(
            vars,
            workers_default,
        ).cache_ttl_hours == 168,
        lookup(vars, "MAX_CACHE_SIZE"@) is None ==> read_model(vars, workers_default).max_cache_size
            == 10_000_000,
        lookup(vars, "ENABLE_L1_CACHE"@) is None ==> read_model(
            vars,
            workers_default,
        ).enable_l1_cache,
        lookup(vars, "L1_CACHE_SIZE"@) is None ==> read_model(vars, workers_default).l1_cache_size
            == 10_000,
        lookup(vars, "LOG_LEVEL"@) is None ==> read_model(vars, workers_default).log_level
            == "info"@,
        lookup(vars, "LOG_FORMAT"@) is None ==> read_model(vars, workers_default).log_format
            == "text"@,
        lookup(vars, "METRICS_ENABLED"@) is None ==> read_model(
            vars,
            workers_default,
        ).metrics_enabled,
        lookup(vars, "METRICS_PORT"@) is None ==> read_model(vars, workers_default).metrics_port
            == 9090,
{
    reveal(uint_or);
    reveal(bool_or);
    reveal(decimal_or);
}

/// Whether `text` is no valid value for setting `s`.
pub open spec fn malformed(s: Setting, text: Seq<char>) -> bool {
    match s {
        Setting::SimilarityThreshold => parse_decimal(text) is Err,
        Setting::EnableL1Cache | Setting::MetricsEnabled => parse_bool(text) is None,
        _ => parse_uint(text, setting_max(s)) is Err,
    }
}

/// A setting that is present but malformed makes loading fail: some setting
/// is reported as not parsing, whatever default it has.
pub proof fn lemma_malformed_setting_fails(vars: Seq<(String, String)>, s: Setting)
    requires
        lookup(vars, setting_key(s)) is Some,
        malformed(s, lookup(vars, setting_key(s))->Some_0),
    ensures
        fails(vars, s),
        first_parse_failure(vars) is Some,
{
    reveal(int_complaint);
    reveal(bool_complaint);
    reveal(decimal_complaint);
}

/// An unsigned setting written in decimal is read back as the same number.
pub proof fn lemma_uint_setting_read_back(
    vars: Seq<(String, String)>,
    key: Seq<char>,
    n: nat,
    default: nat,
    max: nat,
)
    requires
        lookup(vars, key) == Some(dec(n)),
        n <= max,
    ensures
        int_complaint(vars, key, max) is None,
        uint_or(vars, key, default, max) == n,
{
    reveal(int_complaint);
    reveal(uint_or);
    lemma_dec_parses(n, max);
}

} // verus!
