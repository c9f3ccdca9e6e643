//! The service configuration and the rules every loaded configuration obeys.
use vstd::prelude::*;

use crate::decimal::Decimal;
use crate::errors::{
    contains, lemma_contains_extend, lemma_contains_prefix, lemma_contains_suffix,
    ConfigurationError,
};
use crate::text::{dec, has_prefix, starts_with, text_eq, u64_text};

verus! {

/// What `str::to_lowercase` makes of a text.
pub uninterp spec fn lower_of(s: Seq<char>) -> Seq<char>;

/// Relies on `str::to_lowercase`: its result depends on the characters alone.
#[verifier::external_body]
pub(crate) fn lowercase(s: &str) -> (r: String)
    ensures
        r@ == lower_of(s@),
{
    s.to_lowercase()
}

/// The service configuration. A value returned by `Config::load` satisfies
/// every rule of `ConfigModel::passes`.
#[derive(Debug, Clone)]
pub struct Config {
    pub host: String,
    pub port: u16,
    pub workers: usize,
    pub qdrant_url: String,
    pub qdrant_collection_name: String,
    pub qdrant_api_key: Option<String>,
    pub embedding_model_path: String,
    pub embedding_dimension: usize,
    pub embedding_batch_size: usize,
    pub embedding_cache_size: usize,
    pub similarity_threshold: Decimal,
    pub cache_ttl_hours: u64,
    pub max_cache_size: usize,
    pub enable_l1_cache: bool,
    pub l1_cache_size: usize,
    pub openai_api_key: Option<String>,
    pub anthropic_api_key: Option<String>,
    pub exa_api_key: Option<String>,
    pub log_level: String,
    pub log_format: String,
    pub log_file_path: Option<String>,
    pub metrics_enabled: bool,
    pub metrics_port: u16,
}

/// A configuration with its texts seen as character sequences.
pub struct ConfigModel {
    pub host: Seq<char>,
    pub port: u16,
    pub workers: usize,
    pub qdrant_url: Seq<char>,
    pub qdrant_collection_name: Seq<char>,
    pub qdrant_api_key: Option<Seq<char>>,
    pub embedding_model_path: Seq<char>,
    pub embedding_dimension: usize,
    pub embedding_batch_size: usize,
    pub embedding_cache_size: usize,
    pub similarity_threshold: Decimal,
    pub cache_ttl_hours: u64,
    pub max_cache_size: usize,
    pub enable_l1_cache: bool,
    pub l1_cache_size: usize,
    pub openai_api_key: Option<Seq<char>>,
    pub anthropic_api_key: Option<Seq<char>>,
    pub exa_api_key: Option<Seq<char>>,
    pub log_level: Seq<char>,
    pub log_format: Seq<char>,
    pub log_file_path: Option<Seq<char>>,
    pub metrics_enabled: bool,
    pub metrics_port: u16,
}

pub open spec fn opt_text(o: Option<String>) -> Option<Seq<char>> {
    match o {
        Some(s) => Some(s@),
        None => None,
    }
}

impl View for Config {
    type V = ConfigModel;

    open spec fn view(&self) -> ConfigModel {
        ConfigModel {
            host: self.host@,
            port: self.port,
            workers: self.workers,
            qdrant_url: self.qdrant_url@,
            qdrant_collection_name: self.qdrant_collection_name@,
            qdrant_api_key: opt_text(self.qdrant_api_key),
            embedding_model_path: self.embedding_model_path@,
            embedding_dimension: self.embedding_dimension,
            embedding_batch_size: self.embedding_batch_size,
            embedding_cache_size: self.embedding_cache_size,
            similarity_threshold: self.similarity_threshold,
            cache_ttl_hours: self.cache_ttl_hours,
            max_cache_size: self.max_cache_size,
            enable_l1_cache: self.enable_l1_cache,
            l1_cache_size: self.l1_cache_size,
            openai_api_key: opt_text(self.openai_api_key),
            anthropic_api_key: opt_text(self.anthropic_api_key),
            exa_api_key: opt_text(self.exa_api_key),
            log_level: self.log_level@,
            log_format: self.log_format@,
            log_file_path: opt_text(self.log_file_path),
            metrics_enabled: self.metrics_enabled,
            metrics_port: self.metrics_port,
        }
    }
}

/// The validation rules, in the order in which they are checked.
#[derive(Debug, Clone, Copy, PartialEq, Eq, Structural)]
pub enum Rule {
    Port,
    MetricsPort,
    SimilarityThreshold,
    CacheTtl,
    Workers,
    MaxCacheSize,
    EmbeddingDimension,
    QdrantUrl,
    LogLevel,
    LogFormat,
    CollectionName,
}

pub open spec fn is_http_url(u: Seq<char>) -> bool {
    has_prefix(u, "http://"@) || has_prefix(u, "https://"@)
}

pub open spec fn is_log_level_name(s: Seq<char>) -> bool {
    s == "trace"@ || s == "debug"@ || s == "info"@ || s == "warn"@ || s == "error"@
}

pub open spec fn is_log_format_name(s: Seq<char>) -> bool {
    s == "text"@ || s == "json"@
}

pub open spec fn is_name_char(c: char) -> bool {
    ('a' <= c && c <= 'z') || ('A' <= c && c <= 'Z') || ('0' <= c && c <= '9') || c == '_' || c
        == '-'
}

/// A collection name: non-empty, of ASCII letters, digits, `_` and `-`.
pub open spec fn is_collection_name(n: Seq<char>) -> bool {
    n.len() > 0 && forall|i: int| 0 <= i < n.len() ==> is_name_char(#[trigger] n[i])
}

/// The setting that a rule checks.
pub open spec fn rule_field(rule: Rule) -> Seq<char> {
    match rule {
        Rule::Port => "RIPPLE_PORT"@,
        Rule::MetricsPort => "METRICS_PORT"@,
        Rule::SimilarityThreshold => "SIMILARITY_THRESHOLD"@,
        Rule::CacheTtl => "CACHE_TTL_HOURS"@,
        Rule::Workers => "RIPPLE_WORKERS"@,
        Rule::MaxCacheSize => "MAX_CACHE_SIZE"@,
        Rule::EmbeddingDimension => "EMBEDDING_DIMENSION"@,
        Rule::QdrantUrl => "QDRANT_URL"@,
        Rule::LogLevel => "LOG_LEVEL"@,
        Rule::LogFormat => "LOG_FORMAT"@,
        Rule::CollectionName => "QDRANT_COLLECTION_NAME"@,
    }
}

pub open spec fn is_range_error(
    e: ConfigurationError,
    field: Seq<char>,
    value: Seq<char>,
    min: Seq<char>,
    max: Seq<char>,
) -> bool {
    e matches ConfigurationError::InvalidRange { field: f, value: v, min: a, max: b } && f@
        == field && v@ == value && a@ == min && b@ == max
}

pub open spec fn is_format_error(
    e: ConfigurationError,
    field: Seq<char>,
    value: Seq<char>,
    expected: Seq<char>,
) -> bool {
    e matches ConfigurationError::InvalidFormat { field: f, value: v, expected: x } && f@ == field
        && v@ == value && x@ == expected
}

pub open spec fn is_missing_error(e: ConfigurationError, field: Seq<char>) -> bool {
    e matches ConfigurationError::MissingField { field: f } && f@ == field
}

impl ConfigModel {
    /// Whether this configuration satisfies `rule`.
    pub open spec fn passes(self, rule: Rule) -> bool {
        match rule {
            Rule::Port => self.port >= 1024,
            Rule::MetricsPort => self.metrics_port >= 1024,
            Rule::SimilarityThreshold => self.similarity_threshold.spec_in_unit_interval(),
            Rule::CacheTtl => self.cache_ttl_hours != 0,
            Rule::Workers => 1 <= self.workers <= 128,
            Rule::MaxCacheSize => self.max_cache_size != 0,
            Rule::EmbeddingDimension => 1 <= self.embedding_dimension <= 4096,
            Rule::QdrantUrl => is_http_url(self.qdrant_url),
            Rule::LogLevel => is_log_level_name(lower_of(self.log_level)),
            Rule::LogFormat => is_log_format_name(lower_of(self.log_format)),
            Rule::CollectionName => is_collection_name(self.qdrant_collection_name),
        }
    }

    /// The first rule, in checking order, that this configuration breaks.
    pub open spec fn first_failure(self) -> Option<Rule> {
        if !self.passes(Rule::Port) {
            Some(Rule::Port)
        } else if !self.passes(Rule::MetricsPort) {
            Some(Rule::MetricsPort)
        } else if !self.passes(Rule::SimilarityThreshold) {
            Some(Rule::SimilarityThreshold)
        } else if !self.passes(Rule::CacheTtl) {
            Some(Rule::CacheTtl)
        } else if !self.passes(Rule::Workers) {
            Some(Rule::Workers)
        } else if !self.passes(Rule::MaxCacheSize) {
            Some(Rule::MaxCacheSize)
        } else if !self.passes(Rule::EmbeddingDimension) {
            Some(Rule::EmbeddingDimension)
        } else if !self.passes(Rule::QdrantUrl) {
            Some(Rule::QdrantUrl)
        } else if !self.passes(Rule::LogLevel) {
            Some(Rule::LogLevel)
        } else if !self.passes(Rule::LogFormat) {
            Some(Rule::LogFormat)
        } else if !self.passes(Rule::CollectionName) {
            Some(Rule::CollectionName)
        } else {
            None
        }
    }

    /// Whether this configuration satisfies every rule.
    pub open spec fn valid(self) -> bool {
        forall|rule: Rule| #[trigger] self.passes(rule)
    }

    /// Whether `e` is the error that reports a breach of `rule`.
    pub open spec fn reports(self, rule: Rule, e: ConfigurationError) -> bool {
        let field = rule_field(rule);
        match rule {
            Rule::Port => is_range_error(e, field, dec(self.port as nat), "1024"@, "65535"@),
            Rule::MetricsPort => is_range_error(
                e,
                field,
                dec(self.metrics_port as nat),
                "1024"@,
                "65535"@,
            ),
            Rule::SimilarityThreshold => is_range_error(
                e,
                field,
                self.similarity_threshold.spec_text(),
                "0.0"@,
                "1.0"@,
            ),
            Rule::CacheTtl => is_range_error(e, field, "0"@, "1"@, "unlimited"@),
            Rule::Workers => is_range_error(e, field, dec(self.workers as nat), "1"@, "128"@),
            Rule::MaxCacheSize => is_range_error(e, field, "0"@, "1"@, "unlimited"@),
            Rule::EmbeddingDimension => is_range_error(
                e,
                field,
                dec(self.embedding_dimension as nat),
                "1"@,
                "4096"@,
            ),
            Rule::QdrantUrl => is_format_error(
                e,
                field,
                self.qdrant_url,
                "URL starting with http:// or https://"@,
            ),
            Rule::LogLevel => is_format_error(
                e,
                field,
                self.log_level,
                "One of: trace, debug, info, warn, error"@,
            ),
            Rule::LogFormat => is_format_error(e, field, self.log_format, "One of: text, json"@),
            Rule::CollectionName => if self.qdrant_collection_name.len() == 0 {
                is_missing_error(e, field)
            } else {
                is_format_error(
                    e,
                    field,
                    self.qdrant_collection_name,
                    "Alphanumeric characters, underscores, and hyphens only"@,
                )
            },
        }
    }
}

/// Whether `lowered` names a log level.
pub fn is_log_level(lowered: &str) -> (r: bool)
    ensures
        r == is_log_level_name(lowered@),
{
    text_eq(lowered, "trace") || text_eq(lowered, "debug") || text_eq(lowered, "info") || text_eq(
        lowered,
        "warn",
    ) || text_eq(lowered, "error")
}

/// Whether `lowered` names a log format.
pub fn is_log_format(lowered: &str) -> (r: bool)
    ensures
        r == is_log_format_name(lowered@),
{
    text_eq(lowered, "text") || text_eq(lowered, "json")
}

fn range_error(field: &str, value: String, min: &str, max: &str) -> (e: ConfigurationError)
    ensures
        is_range_error(e, field@, value@, min@, max@),
{
    ConfigurationError::InvalidRange {
        field: String::from_str(field),
        value,
        min: String::from_str(min),
        max: String::from_str(max),
    }
}

fn format_error(field: &str, value: &String, expected: &str) -> (e: ConfigurationError)
    ensures
        is_format_error(e, field@, value@, expected@),
{
    ConfigurationError::InvalidFormat {
        field: String::from_str(field),
        value: value.clone(),
        expected: String::from_str(expected),
    }
}

impl Config {
    /// Checks every rule in order and reports the first one broken.
    pub fn validate(&self) -> (r: Result<(), ConfigurationError>)
        ensures
            match self@.first_failure() {
                None => r is Ok,
                Some(rule) => r is Err && self@.reports(rule, r->Err_0),
            },
    {
        self.validate_port(self.port, "RIPPLE_PORT")?;
        self.validate_port(self.metrics_port, "METRICS_PORT")?;
        self.validate_similarity_threshold()?;
        self.validate_ttl()?;
        self.validate_workers()?;
        self.validate_cache_size()?;
        self.validate_embedding_dimension()?;
        self.validate_url(&self.qdrant_url, "QDRANT_URL")?;
        self.validate_log_level()?;
        self.validate_log_format()?;
        self.validate_collection_name()?;
        Ok(())
    }

    fn validate_port(&self, port: u16, name: &str) -> (r: Result<(), ConfigurationError>)
        ensures
            port >= 1024 ==> r is Ok,
            port < 1024 ==> r is Err && is_range_error(
                r->Err_0,
                name@,
                dec(port as nat),
                "1024"@,
                "65535"@,
            ),
    {
        if port < 1024 {
            return Err(range_error(name, u64_text(port as u64), "1024", "65535"));
        }
        Ok(())
    }

    fn validate_similarity_threshold(&self) -> (r: Result<(), ConfigurationError>)
        ensures
            self@.passes(Rule::SimilarityThreshold) ==> r is Ok,
            !self@.passes(Rule::SimilarityThreshold) ==> r is Err && self@.reports(
                Rule::SimilarityThreshold,
                r->Err_0,
            ),
    {
        if !self.similarity_threshold.in_unit_interval() {
            return Err(
                range_error(
                    "SIMILARITY_THRESHOLD",
                    self.similarity_threshold.text(),
                    "0.0",
                    "1.0",
                ),
            );
        }
        Ok(())
    }

    fn validate_ttl(&self) -> (r: Result<(), ConfigurationError>)
        ensures
            self@.passes(Rule::CacheTtl) ==> r is Ok,
            !self@.passes(Rule::CacheTtl) ==> r is Err && self@.reports(Rule::CacheTtl, r->Err_0),
    {
        if self.cache_ttl_hours == 0 {
            return Err(
                range_error("CACHE_TTL_HOURS", String::from_str("0"), "1", "unlimited"),
            );
        }
        Ok(())
    }

    fn validate_workers(&self) -> (r: Result<(), ConfigurationError>)
        ensures
            self@.passes(Rule::Workers) ==> r is Ok,
            !self@.passes(Rule::Workers) ==> r is Err && self@.reports(Rule::Workers, r->Err_0),
    {
        if self.workers == 0 || self.workers > 128 {
            return Err(range_error("RIPPLE_WORKERS", u64_text(self.workers as u64), "1", "128"));
        }
        Ok(())
    }

    fn validate_cache_size(&self) -> (r: Result<(), ConfigurationError>)
        ensures
            self@.passes(Rule::MaxCacheSize) ==> r is Ok,
            !self@.passes(Rule::MaxCacheSize) ==> r is Err && self@.reports(
                Rule::MaxCacheSize,
                r->Err_0,
            ),
    {
        if self.max_cache_size == 0 {
            return Err(range_error("MAX_CACHE_SIZE", String::from_str("0"), "1", "unlimited"));
        }
        Ok(())
    }

    fn validate_embedding_dimension(&self) -> (r: Result<(), ConfigurationError>)
        ensures
            self@.passes(Rule::EmbeddingDimension) ==> r is Ok,
            !self@.passes(Rule::EmbeddingDimension) ==> r is Err && self@.reports(
                Rule::EmbeddingDimension,
                r->Err_0,
            ),
    {
        if self.embedding_dimension == 0 || self.embedding_dimension > 4096 {
            return Err(
                range_error(
                    "EMBEDDING_DIMENSION",
                    u64_text(self.embedding_dimension as u64),
                    "1",
                    "4096",
                ),
            );
        }
        Ok(())
    }

    fn validate_url(&self, url: &String, name: &str) -> (r: Result<(), ConfigurationError>)
        ensures
            is_http_url(url@) ==> r is Ok,
            !is_http_url(url@) ==> r is Err && is_format_error(
                r->Err_0,
                name@,
                url@,
                "URL starting with http:// or https://"@,
            ),
    {
        if !starts_with(url.as_str(), "http://") && !starts_with(url.as_str(), "https://") {
            return Err(format_error(name, url, "URL starting with http:// or https://"));
        }
        Ok(())
    }

    fn validate_log_level(&self) -> (r: Result<(), ConfigurationError>)
        ensures
            self@.passes(Rule::LogLevel) ==> r is Ok,
            !self@.passes(Rule::LogLevel) ==> r is Err && self@.reports(Rule::LogLevel, r->Err_0),
    {
        let lowered = lowercase(self.log_level.as_str());
        if !is_log_level(lowered.as_str()) {
            return Err(
                format_error("LOG_LEVEL", &self.log_level, "One of: trace, debug, info, warn, error"),
            );
        }
        Ok(())
    }

    fn validate_log_format(&self) -> (r: Result<(), ConfigurationError>)
        ensures
            self@.passes(Rule::LogFormat) ==> r is Ok,
            !self@.passes(Rule::LogFormat) ==> r is Err && self@.reports(
                Rule::LogFormat,
                r->Err_0,
            ),
    {
        let lowered = lowercase(self.log_format.as_str());
        if !is_log_format(lowered.as_str()) {
            return Err(format_error("LOG_FORMAT", &self.log_format, "One of: text, json"));
        }
        Ok(())
    }

    fn validate_collection_name(&self) -> (r: Result<(), ConfigurationError>)
        ensures
            self@.passes(Rule::CollectionName) ==> r is Ok,
            !self@.passes(Rule::CollectionName) ==> r is Err && self@.reports(
                Rule::CollectionName,
                r->Err_0,
            ),
    {
        let name = self.qdrant_collection_name.as_str();
        let n = name.unicode_len();
        if n == 0 {
            return Err(
                ConfigurationError::MissingField {
                    field: String::from_str("QDRANT_COLLECTION_NAME"),
                },
            );
        }
        let mut i: usize = 0;
        while i < n
            invariant
                n == name@.len(),
                name@ == self.qdrant_collection_name@,
                i <= n,
                forall|j: int| 0 <= j < i ==> is_name_char(#[trigger] name@[j]),
            decreases n - i,
        {
            let c = name.get_char(i);
            let ok = ('a' <= c && c <= 'z') || ('A' <= c && c <= 'Z') || ('0' <= c && c <= '9')
                || c == '_' || c == '-';
            if !ok {
                assert(!is_name_char(self@.qdrant_collection_name[i as int]));
                return Err(
                    format_error(
                        "QDRANT_COLLECTION_NAME",
                        &self.qdrant_collection_name,
                        "Alphanumeric characters, underscores, and hyphens only",
                    ),
                );
            }
            i = i + 1;
        }
        Ok(())
    }
}

/// A configuration whose values all lie in their ranges passes every rule:
/// ports from 1024, a similarity threshold in `[0, 1]`, a TTL of at least one
/// hour, 1 to 128 workers, a non-zero cache size, an embedding dimension from
/// 1 to 4096, an `http://` or `https://` store URL, a log level and a log
/// format of the known ones (after lowercasing), and a collection name of
/// ASCII letters, digits, `_` and `-`.
pub proof fn lemma_in_range_config_is_valid(m: ConfigModel)
    requires
        m.port >= 1024,
        m.metrics_port >= 1024,
        m.similarity_threshold.spec_in_unit_interval(),
        m.cache_ttl_hours >= 1,
        1 <= m.workers <= 128,
        m.max_cache_size >= 1,
        1 <= m.embedding_dimension <= 4096,
        is_http_url(m.qdrant_url),
        is_log_level_name(lower_of(m.log_level)),
        is_log_format_name(lower_of(m.log_format)),
        is_collection_name(m.qdrant_collection_name),
    ensures
        m.first_failure() is None,
        m.valid(),
{
    assert forall|rule: Rule| #[trigger] m.passes(rule) by {
        match rule {
            _ => {},
        }
    }
}

/// The error that reports a broken rule names the setting in its message.
pub proof fn lemma_breach_names_field(m: ConfigModel, e: ConfigurationError)
    requires
        m.first_failure() is Some,
        m.reports(m.first_failure()->Some_0, e),
    ensures
        contains(e.spec_message(), rule_field(m.first_failure()->Some_0)),
{
    match e {
        ConfigurationError::InvalidRange { field, value, min, max } => {
            let f = field@;
            lemma_contains_prefix(f, " value '"@);
            lemma_contains_extend(f + " value '"@, f, value@);
            lemma_contains_extend(f + " value '"@ + value@, f, "' is out of range ["@);
            lemma_contains_extend(f + " value '"@ + value@ + "' is out of range ["@, f, min@);
            lemma_contains_extend(
                f + " value '"@ + value@ + "' is out of range ["@ + min@,
                f,
                ", "@,
            );
            lemma_contains_extend(
                f + " value '"@ + value@ + "' is out of range ["@ + min@ + ", "@,
                f,
                max@,
            );
            lemma_contains_extend(
                f + " value '"@ + value@ + "' is out of range ["@ + min@ + ", "@ + max@,
                f,
                "]"@,
            );
        },
        ConfigurationError::InvalidFormat { field, value, expected } => {
            let f = field@;
            let p = "Invalid value for "@;
            lemma_contains_suffix(p, f);
            lemma_contains_extend(p + f, f, ": '"@);
            lemma_contains_extend(p + f + ": '"@, f, value@);
            lemma_contains_extend(p + f + ": '"@ + value@, f, "' (expected "@);
            lemma_contains_extend(p + f + ": '"@ + value@ + "' (expected "@, f, expected@);
            lemma_contains_extend(
                p + f + ": '"@ + value@ + "' (expected "@ + expected@,
                f,
                ")"@,
            );
        },
        ConfigurationError::MissingField { field } => {
            lemma_contains_suffix("Missing required configuration field: "@, field@);
        },
        _ => {},
    }
}

} // verus!
