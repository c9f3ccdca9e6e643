//! Error kinds of each subsystem and the unified error that wraps them.
//!
//! Every error renders a fixed message template that embeds all of its
//! fields; `spec_message` states each template exactly and `message`
//! produces it.
use vstd::prelude::*;

use crate::text::{dec, u64_text};

verus! {

/// Whether `needle` occurs in `hay` as a contiguous run of characters.
pub open spec fn contains(hay: Seq<char>, needle: Seq<char>) -> bool {
    exists|i: int|
        0 <= i && i + needle.len() <= hay.len() && #[trigger] hay.subrange(i, i + needle.len())
            == needle
}

/// A suffix always occurs in the text it ends.
pub proof fn lemma_contains_suffix(prefix: Seq<char>, s: Seq<char>)
    ensures
        contains(prefix + s, s),
{
    let hay = prefix + s;
    assert(hay.subrange(prefix.len() as int, prefix.len() + s.len() as int) =~= s);
}

/// Text that occurs in `hay` still occurs once more text follows.
pub proof fn lemma_contains_extend(hay: Seq<char>, needle: Seq<char>, tail: Seq<char>)
    requires
        contains(hay, needle),
    ensures
        contains(hay + tail, needle),
{
    let i = choose|i: int|
        0 <= i && i + needle.len() <= hay.len() && #[trigger] hay.subrange(i, i + needle.len())
            == needle;
    assert((hay + tail).subrange(i, i + needle.len()) =~= hay.subrange(i, i + needle.len()));
}

/// Text that occurs in `hay` still occurs once more text precedes it.
pub proof fn lemma_contains_after(head: Seq<char>, hay: Seq<char>, needle: Seq<char>)
    requires
        contains(hay, needle),
    ensures
        contains(head + hay, needle),
{
    let i = choose|i: int|
        0 <= i && i + needle.len() <= hay.len() && #[trigger] hay.subrange(i, i + needle.len())
            == needle;
    let j = head.len() + i;
    assert((head + hay).subrange(j, j + needle.len()) =~= hay.subrange(i, i + needle.len()));
}

/// A prefix always occurs in the text it starts.
pub proof fn lemma_contains_prefix(s: Seq<char>, tail: Seq<char>)
    ensures
        contains(s + tail, s),
{
    assert((s + tail).subrange(0, 0 + s.len() as int) =~= s);
}

/// Errors of the configuration subsystem.
#[derive(Debug)]
pub enum ConfigurationError {
    MissingField { field: String },
    InvalidFormat { field: String, value: String, expected: String },
    InvalidRange { field: String, value: String, min: String, max: String },
    ParseError { field: String, value: String, expected_type: String, details: String },
    FileNotFound { path: String, details: String },
}

impl ConfigurationError {
    pub open spec fn spec_message(&self) -> Seq<char> {
        match self {
            ConfigurationError::MissingField { field } => "Missing required configuration field: "@
                + field@,
            ConfigurationError::InvalidFormat { field, value, expected } => "Invalid value for "@
                + field@ + ": '"@ + value@ + "' (expected "@ + expected@ + ")"@,
            ConfigurationError::InvalidRange { field, value, min, max } => field@ + " value '"@
                + value@ + "' is out of range ["@ + min@ + ", "@ + max@ + "]"@,
            ConfigurationError::ParseError { field, value, expected_type, details } =>
                "Failed to parse "@ + field@ + ": '"@ + value@ + "' is not a valid "@
                + expected_type@ + " ("@ + details@ + ")"@,
            ConfigurationError::FileNotFound { path, details } => "File not found at path '"@
                + path@ + "': "@ + details@,
        }
    }

    /// The human-readable message of this error.
    pub fn message(&self) -> (r: String)
        ensures
            r@ == self.spec_message(),
    {
        match self {
            ConfigurationError::MissingField { field } => {
                let mut s = String::from_str("Missing required configuration field: ");
                s.append(field.as_str());
                s
            },
            ConfigurationError::InvalidFormat { field, value, expected } => {
                let mut s = String::from_str("Invalid value for ");
                s.append(field.as_str());
                s.append(": '");
                s.append(value.as_str());
                s.append("' (expected ");
                s.append(expected.as_str());
                s.append(")");
                s
            },
            ConfigurationError::InvalidRange { field, value, min, max } => {
                let mut s = field.clone();
                s.append(" value '");
                s.append(value.as_str());
                s.append("' is out of range [");
                s.append(min.as_str());
                s.append(", ");
                s.append(max.as_str());
                s.append("]");
                s
            },
            ConfigurationError::ParseError { field, value, expected_type, details } => {
                let mut s = String::from_str("Failed to parse ");
                s.append(field.as_str());
                s.append(": '");
                s.append(value.as_str());
                s.append("' is not a valid ");
                s.append(expected_type.as_str());
                s.append(" (");
                s.append(details.as_str());
                s.append(")");
                s
            },
            ConfigurationError::FileNotFound { path, details } => {
                let mut s = String::from_str("File not found at path '");
                s.append(path.as_str());
                s.append("': ");
                s.append(details.as_str());
                s
            },
        }
    }
}

/// Errors of network operations.
#[derive(Debug)]
pub enum NetworkError {
    ConnectionFailed { endpoint: String, details: String },
    Timeout { endpoint: String, timeout_ms: u64 },
    TlsError { endpoint: String, details: String },
    DnsError { host: String, details: String },
}

impl NetworkError {
    pub open spec fn spec_message(&self) -> Seq<char> {
        match self {
            NetworkError::ConnectionFailed { endpoint, details } => "Connection failed to "@
                + endpoint@ + ": "@ + details@,
            NetworkError::Timeout { endpoint, timeout_ms } => "Request timed out after "@ + dec(
                *timeout_ms as nat,
            ) + "ms to "@ + endpoint@,
            NetworkError::TlsError { endpoint, details } => "TLS error connecting to "@
                + endpoint@ + ": "@ + details@,
            NetworkError::DnsError { host, details } => "DNS resolution failed for "@ + host@
                + ": "@ + details@,
        }
    }

    /// The human-readable message of this error.
    pub fn message(&self) -> (r: String)
        ensures
            r@ == self.spec_message(),
    {
        match self {
            NetworkError::ConnectionFailed { endpoint, details } => {
                let mut s = String::from_str("Connection failed to ");
                s.append(endpoint.as_str());
                s.append(": ");
                s.append(details.as_str());
                s
            },
            NetworkError::Timeout { endpoint, timeout_ms } => {
                let mut s = String::from_str("Request timed out after ");
                let ms = u64_text(*timeout_ms);
                s.append(ms.as_str());
                s.append("ms to ");
                s.append(endpoint.as_str());
                s
            },
            NetworkError::TlsError { endpoint, details } => {
                let mut s = String::from_str("TLS error connecting to ");
                s.append(endpoint.as_str());
                s.append(": ");
                s.append(details.as_str());
                s
            },
            NetworkError::DnsError { host, details } => {
                let mut s = String::from_str("DNS resolution failed for ");
                s.append(host.as_str());
                s.append(": ");
                s.append(details.as_str());
                s
            },
        }
    }
}

/// Errors of the caching subsystem.
#[derive(Debug)]
pub enum CacheError {
    ReadFailed { key: String, details: String },
    WriteFailed { key: String, details: String },
    InvalidationFailed { details: String },
    CapacityExceeded { max_size: usize },
}

impl CacheError {
    pub open spec fn spec_message(&self) -> Seq<char> {
        match self {
            CacheError::ReadFailed { key, details } => "Cache read failed for key '"@ + key@
                + "': "@ + details@,
            CacheError::WriteFailed { key, details } => "Cache write failed for key '"@ + key@
                + "': "@ + details@,
            CacheError::InvalidationFailed { details } => "Cache invalidation failed: "@
                + details@,
            CacheError::CapacityExceeded { max_size } => "Cache capacity exceeded (max: "@ + dec(
                *max_size as nat,
            ) + ")"@,
        }
    }

    /// The human-readable message of this error.
    pub fn message(&self) -> (r: String)
        ensures
            r@ == self.spec_message(),
    {
        match self {
            CacheError::ReadFailed { key, details } => {
                let mut s = String::from_str("Cache read failed for key '");
                s.append(key.as_str());
                s.append("': ");
                s.append(details.as_str());
                s
            },
            CacheError::WriteFailed { key, details } => {
                let mut s = String::from_str("Cache write failed for key '");
                s.append(key.as_str());
                s.append("': ");
                s.append(details.as_str());
                s
            },
            CacheError::InvalidationFailed { details } => {
                let mut s = String::from_str("Cache invalidation failed: ");
                s.append(details.as_str());
                s
            },
            CacheError::CapacityExceeded { max_size } => {
                let mut s = String::from_str("Cache capacity exceeded (max: ");
                let n = u64_text(*max_size as u64);
                s.append(n.as_str());
                s.append(")");
                s
            },
        }
    }
}

/// Errors of the embedding engine.
#[derive(Debug)]
pub enum EmbeddingError {
    ModelLoadFailed { path: String, details: String },
    InferenceFailed { details: String },
    TokenizationFailed { details: String },
    DimensionMismatch { expected: usize, actual: usize },
}

impl EmbeddingError {
    pub open spec fn spec_message(&self) -> Seq<char> {
        match self {
            EmbeddingError::ModelLoadFailed { path, details } =>
                "Failed to load embedding model from '"@ + path@ + "': "@ + details@,
            EmbeddingError::InferenceFailed { details } => "Embedding inference failed: "@
                + details@,
            EmbeddingError::TokenizationFailed { details } => "Tokenization failed for input: "@
                + details@,
            EmbeddingError::DimensionMismatch { expected, actual } =>
                "Invalid embedding dimensions: expected "@ + dec(*expected as nat) + ", got "@
                + dec(*actual as nat),
        }
    }

    /// The human-readable message of this error.
    pub fn message(&self) -> (r: String)
        ensures
            r@ == self.spec_message(),
    {
        match self {
            EmbeddingError::ModelLoadFailed { path, details } => {
                let mut s = String::from_str("Failed to load embedding model from '");
                s.append(path.as_str());
                s.append("': ");
                s.append(details.as_str());
                s
            },
            EmbeddingError::InferenceFailed { details } => {
                let mut s = String::from_str("Embedding inference failed: ");
                s.append(details.as_str());
                s
            },
            EmbeddingError::TokenizationFailed { details } => {
                let mut s = String::from_str("Tokenization failed for input: ");
                s.append(details.as_str());
                s
            },
            EmbeddingError::DimensionMismatch { expected, actual } => {
                let mut s = String::from_str("Invalid embedding dimensions: expected ");
                let e = u64_text(*expected as u64);
                s.append(e.as_str());
                s.append(", got ");
                let a = u64_text(*actual as u64);
                s.append(a.as_str());
                s
            },
        }
    }
}

/// Errors of the vector-store layer.
#[derive(Debug)]
pub enum VectorStoreError {
    ConnectionFailed { details: String },
    CollectionNotFound { collection: String },
    InsertionFailed { details: String },
    SearchFailed { details: String },
    DeletionFailed { details: String },
}

impl VectorStoreError {
    pub open spec fn spec_message(&self) -> Seq<char> {
        match self {
            VectorStoreError::ConnectionFailed { details } => "Vector store connection failed: "@
                + details@,
            VectorStoreError::CollectionNotFound { collection } => "Collection '"@ + collection@
                + "' not found"@,
            VectorStoreError::InsertionFailed { details } => "Vector insertion failed: "@
                + details@,
            VectorStoreError::SearchFailed { details } => "Vector search failed: "@ + details@,
            VectorStoreError::DeletionFailed { details } => "Vector deletion failed: "@ + details@,
        }
    }

    /// The human-readable message of this error.
    pub fn message(&self) -> (r: String)
        ensures
            r@ == self.spec_message(),
    {
        match self {
            VectorStoreError::ConnectionFailed { details } => {
                let mut s = String::from_str("Vector store connection failed: ");
                s.append(details.as_str());
                s
            },
            VectorStoreError::CollectionNotFound { collection } => {
                let mut s = String::from_str("Collection '");
                s.append(collection.as_str());
                s.append("' not found");
                s
            },
            VectorStoreError::InsertionFailed { details } => {
                let mut s = String::from_str("Vector insertion failed: ");
                s.append(details.as_str());
                s
            },
            VectorStoreError::SearchFailed { details } => {
                let mut s = String::from_str("Vector search failed: ");
                s.append(details.as_str());
                s
            },
            VectorStoreError::DeletionFailed { details } => {
                let mut s = String::from_str("Vector deletion failed: ");
                s.append(details.as_str());
                s
            },
        }
    }
}

/// Errors of upstream API providers.
#[derive(Debug)]
pub enum UpstreamApiError {
    RequestFailed { provider: String, details: String },
    RateLimited { provider: String, retry_after_secs: u64 },
    InvalidResponse { provider: String, details: String },
    InvalidApiKey { provider: String },
}

impl UpstreamApiError {
    pub open spec fn spec_message(&self) -> Seq<char> {
        match self {
            UpstreamApiError::RequestFailed { provider, details } =>
                "Upstream API request failed ("@ + provider@ + "): "@ + details@,
            UpstreamApiError::RateLimited { provider, retry_after_secs } =>
                "Upstream API rate limited ("@ + provider@ + "): retry after "@ + dec(
                *retry_after_secs as nat,
            ) + "s"@,
            UpstreamApiError::InvalidResponse { provider, details } =>
                "Invalid response from upstream ("@ + provider@ + "): "@ + details@,
            UpstreamApiError::InvalidApiKey { provider } => "Upstream API key invalid for "@
                + provider@,
        }
    }

    /// The human-readable message of this error.
    pub fn message(&self) -> (r: String)
        ensures
            r@ == self.spec_message(),
    {
        match self {
            UpstreamApiError::RequestFailed { provider, details } => {
                let mut s = String::from_str("Upstream API request failed (");
                s.append(provider.as_str());
                s.append("): ");
                s.append(details.as_str());
                s
            },
            UpstreamApiError::RateLimited { provider, retry_after_secs } => {
                let mut s = String::from_str("Upstream API rate limited (");
                s.append(provider.as_str());
                s.append("): retry after ");
                let n = u64_text(*retry_after_secs);
                s.append(n.as_str());
                s.append("s");
                s
            },
            UpstreamApiError::InvalidResponse { provider, details } => {
                let mut s = String::from_str("Invalid response from upstream (");
                s.append(provider.as_str());
                s.append("): ");
                s.append(details.as_str());
                s
            },
            UpstreamApiError::InvalidApiKey { provider } => {
                let mut s = String::from_str("Upstream API key invalid for ");
                s.append(provider.as_str());
                s
            },
        }
    }
}

/// Errors of request authentication and authorization.
#[derive(Debug)]
pub enum AuthenticationError {
    MissingApiKey,
    InvalidApiKey,
    ExpiredApiKey,
    InsufficientPermissions { tenant_id: String },
}

impl AuthenticationError {
    pub open spec fn spec_message(&self) -> Seq<char> {
        match self {
            AuthenticationError::MissingApiKey => "Missing API key in request"@,
            AuthenticationError::InvalidApiKey => "Invalid API key"@,
            AuthenticationError::ExpiredApiKey => "API key expired"@,
            AuthenticationError::InsufficientPermissions { tenant_id } =>
                "Insufficient permissions for tenant '"@ + tenant_id@ + "'"@,
        }
    }

    /// The human-readable message of this error.
    pub fn message(&self) -> (r: String)
        ensures
            r@ == self.spec_message(),
    {
        match self {
            AuthenticationError::MissingApiKey => String::from_str("Missing API key in request"),
            AuthenticationError::InvalidApiKey => String::from_str("Invalid API key"),
            AuthenticationError::ExpiredApiKey => String::from_str("API key expired"),
            AuthenticationError::InsufficientPermissions { tenant_id } => {
                let mut s = String::from_str("Insufficient permissions for tenant '");
                s.append(tenant_id.as_str());
                s.append("'");
                s
            },
        }
    }
}

/// Errors of request validation.
#[derive(Debug)]
pub enum ValidationError {
    InvalidFormat { details: String },
    MissingField { field: String },
    ValueTooLarge { field: String, max: String },
    UnsupportedModel { model: String },
}

impl ValidationError {
    pub open spec fn spec_message(&self) -> Seq<char> {
        match self {
            ValidationError::InvalidFormat { details } => "Invalid request format: "@ + details@,
            ValidationError::MissingField { field } => "Missing required field: "@ + field@,
            ValidationError::ValueTooLarge { field, max } => "Field '"@ + field@
                + "' value too large: max "@ + max@,
            ValidationError::UnsupportedModel { model } => "Unsupported model: "@ + model@,
        }
    }

    /// The human-readable message of this error.
    pub fn message(&self) -> (r: String)
        ensures
            r@ == self.spec_message(),
    {
        match self {
            ValidationError::InvalidFormat { details } => {
                let mut s = String::from_str("Invalid request format: ");
                s.append(details.as_str());
                s
            },
            ValidationError::MissingField { field } => {
                let mut s = String::from_str("Missing required field: ");
                s.append(field.as_str());
                s
            },
            ValidationError::ValueTooLarge { field, max } => {
                let mut s = String::from_str("Field '");
                s.append(field.as_str());
                s.append("' value too large: max ");
                s.append(max.as_str());
                s
            },
            ValidationError::UnsupportedModel { model } => {
                let mut s = String::from_str("Unsupported model: ");
                s.append(model.as_str());
                s
            },
        }
    }
}

/// The unified error: one variant per subsystem, plus free-form internal errors.
#[derive(Debug)]
pub enum RippleError {
    Configuration(ConfigurationError),
    Network(NetworkError),
    Cache(CacheError),
    Embedding(EmbeddingError),
    VectorStore(VectorStoreError),
    UpstreamApi(UpstreamApiError),
    Authentication(AuthenticationError),
    Validation(ValidationError),
    Internal(String),
}

impl RippleError {
    /// A wrapped error's message is its own, prefixed with the subsystem name;
    /// an internal error's message is its text verbatim.
    pub open spec fn spec_message(&self) -> Seq<char> {
        match self {
            RippleError::Configuration(e) => "Configuration error: "@ + e.spec_message(),
            RippleError::Network(e) => "Network error: "@ + e.spec_message(),
            RippleError::Cache(e) => "Cache error: "@ + e.spec_message(),
            RippleError::Embedding(e) => "Embedding error: "@ + e.spec_message(),
            RippleError::VectorStore(e) => "Vector store error: "@ + e.spec_message(),
            RippleError::UpstreamApi(e) => "Upstream API error: "@ + e.spec_message(),
            RippleError::Authentication(e) => "Authentication error: "@ + e.spec_message(),
            RippleError::Validation(e) => "Validation error: "@ + e.spec_message(),
            RippleError::Internal(s) => s@,
        }
    }

    /// The human-readable message of this error.
    pub fn message(&self) -> (r: String)
        ensures
            r@ == self.spec_message(),
    {
        let (prefix, inner) = match self {
            RippleError::Configuration(e) => ("Configuration error: ", e.message()),
            RippleError::Network(e) => ("Network error: ", e.message()),
            RippleError::Cache(e) => ("Cache error: ", e.message()),
            RippleError::Embedding(e) => ("Embedding error: ", e.message()),
            RippleError::VectorStore(e) => ("Vector store error: ", e.message()),
            RippleError::UpstreamApi(e) => ("Upstream API error: ", e.message()),
            RippleError::Authentication(e) => ("Authentication error: ", e.message()),
            RippleError::Validation(e) => ("Validation error: ", e.message()),
            RippleError::Internal(s) => {
                return s.clone();
            },
        };
        let mut r = String::from_str(prefix);
        r.append(inner.as_str());
        r
    }
}

impl From<ConfigurationError> for RippleError {
    fn from(e: ConfigurationError) -> (r: RippleError) {
        RippleError::Configuration(e)
    }
}

impl vstd::std_specs::convert::FromSpecImpl<ConfigurationError> for RippleError {
    open spec fn obeys_from_spec() -> bool {
        true
    }

    open spec fn from_spec(e: ConfigurationError) -> RippleError {
        RippleError::Configuration(e)
    }
}

impl From<NetworkError> for RippleError {
    fn from(e: NetworkError) -> (r: RippleError) {
        RippleError::Network(e)
    }
}

impl vstd::std_specs::convert::FromSpecImpl<NetworkError> for RippleError {
    open spec fn obeys_from_spec() -> bool {
        true
    }

    open spec fn from_spec(e: NetworkError) -> RippleError {
        RippleError::Network(e)
    }
}

impl From<CacheError> for RippleError {
    fn from(e: CacheError) -> (r: RippleError) {
        RippleError::Cache(e)
    }
}

impl vstd::std_specs::convert::FromSpecImpl<CacheError> for RippleError {
    open spec fn obeys_from_spec() -> bool {
        true
    }

    open spec fn from_spec(e: CacheError) -> RippleError {
        RippleError::Cache(e)
    }
}

impl From<EmbeddingError> for RippleError {
    fn from(e: EmbeddingError) -> (r: RippleError) {
        RippleError::Embedding(e)
    }
}

impl vstd::std_specs::convert::FromSpecImpl<EmbeddingError> for RippleError {
    open spec fn obeys_from_spec() -> bool {
        true
    }

    open spec fn from_spec(e: EmbeddingError) -> RippleError {
        RippleError::Embedding(e)
    }
}

impl From<VectorStoreError> for RippleError {
    fn from(e: VectorStoreError) -> (r: RippleError) {
        RippleError::VectorStore(e)
    }
}

impl vstd::std_specs::convert::FromSpecImpl<VectorStoreError> for RippleError {
    open spec fn obeys_from_spec() -> bool {
        true
    }

    open spec fn from_spec(e: VectorStoreError) -> RippleError {
        RippleError::VectorStore(e)
    }
}

impl From<UpstreamApiError> for RippleError {
    fn from(e: UpstreamApiError) -> (r: RippleError) {
        RippleError::UpstreamApi(e)
    }
}

impl vstd::std_specs::convert::FromSpecImpl<UpstreamApiError> for RippleError {
    open spec fn obeys_from_spec() -> bool {
        true
    }

    open spec fn from_spec(e: UpstreamApiError) -> RippleError {
        RippleError::UpstreamApi(e)
    }
}

impl From<AuthenticationError> for RippleError {
    fn from(e: AuthenticationError) -> (r: RippleError) {
        RippleError::Authentication(e)
    }
}

impl vstd::std_specs::convert::FromSpecImpl<AuthenticationError> for RippleError {
    open spec fn obeys_from_spec() -> bool {
        true
    }

    open spec fn from_spec(e: AuthenticationError) -> RippleError {
        RippleError::Authentication(e)
    }
}

impl From<ValidationError> for RippleError {
    fn from(e: ValidationError) -> (r: RippleError) {
        RippleError::Validation(e)
    }
}

impl vstd::std_specs::convert::FromSpecImpl<ValidationError> for RippleError {
    open spec fn obeys_from_spec() -> bool {
        true
    }

    open spec fn from_spec(e: ValidationError) -> RippleError {
        RippleError::Validation(e)
    }
}

/// Wrapping a configuration error keeps its message as part of the unified message.
pub proof fn lemma_configuration_message_kept(e: ConfigurationError)
    ensures
        contains(RippleError::Configuration(e).spec_message(), e.spec_message()),
{
    lemma_contains_suffix("Configuration error: "@, e.spec_message());
}

/// Wrapping a network error keeps its message as part of the unified message.
pub proof fn lemma_network_message_kept(e: NetworkError)
    ensures
        contains(RippleError::Network(e).spec_message(), e.spec_message()),
{
    lemma_contains_suffix("Network error: "@, e.spec_message());
}

/// Wrapping a cache error keeps its message as part of the unified message.
pub proof fn lemma_cache_message_kept(e: CacheError)
    ensures
        contains(RippleError::Cache(e).spec_message(), e.spec_message()),
{
    lemma_contains_suffix("Cache error: "@, e.spec_message());
}

/// Wrapping a embedding error keeps its message as part of the unified message.
pub proof fn lemma_embedding_message_kept(e: EmbeddingError)
    ensures
        contains(RippleError::Embedding(e).spec_message(), e.spec_message()),
{
    lemma_contains_suffix("Embedding error: "@, e.spec_message());
}

/// Wrapping a vector store error keeps its message as part of the unified message.
pub proof fn lemma_vector_store_message_kept(e: VectorStoreError)
    ensures
        contains(RippleError::VectorStore(e).spec_message(), e.spec_message()),
{
    lemma_contains_suffix("Vector store error: "@, e.spec_message());
}

/// Wrapping a upstream error keeps its message as part of the unified message.
pub proof fn lemma_upstream_message_kept(e: UpstreamApiError)
    ensures
        contains(RippleError::UpstreamApi(e).spec_message(), e.spec_message()),
{
    lemma_contains_suffix("Upstream API error: "@, e.spec_message());
}

/// Wrapping a authentication error keeps its message as part of the unified message.
pub proof fn lemma_authentication_message_kept(e: AuthenticationError)
    ensures
        contains(RippleError::Authentication(e).spec_message(), e.spec_message()),
{
    lemma_contains_suffix("Authentication error: "@, e.spec_message());
}

/// Wrapping a validation error keeps its message as part of the unified message.
pub proof fn lemma_validation_message_kept(e: ValidationError)
    ensures
        contains(RippleError::Validation(e).spec_message(), e.spec_message()),
{
    lemma_contains_suffix("Validation error: "@, e.spec_message());
}

} // verus!
