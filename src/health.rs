//! Health probes: what liveness, readiness and the detailed status report,
//! given the outcome of the one outbound check against the vector store.
use vstd::prelude::*;

use crate::config::{opt_text, Config};
use crate::decimal::Decimal;

verus! {

/// Seconds that the readiness check waits for the store's health endpoint
/// before it counts the store as unreachable.
pub const READINESS_TIMEOUT_SECS: u64 = 3;

/// A probe's HTTP status code, its status word and, for probes that check the
/// store, the store's state.
pub struct ProbeResult {
    pub code: u16,
    pub status: String,
    pub store: Option<String>,
}

/// The component-level health report.
pub struct StatusReport {
    pub code: u16,
    pub status: String,
    pub version: String,
    pub uptime_seconds: u64,
    pub store_status: String,
    pub store_url: String,
    pub embedding_status: String,
    pub embedding_path: String,
    pub cache_ttl_hours: u64,
    pub similarity_threshold: Decimal,
    pub max_cache_size: usize,
}

/// Liveness: always 200 and `alive`; it checks nothing.
pub fn liveness() -> (r: ProbeResult)
    ensures
        r.code == 200,
        r.status@ == "alive"@,
        r.store is None,
{
    ProbeResult { code: 200, status: String::from_str("alive"), store: None }
}

/// Readiness: 200 and `ready` when the store answered its health check with
/// success, else 503 and `not_ready`.
pub fn readiness(store_reachable: bool) -> (r: ProbeResult)
    ensures
        r.code == (if store_reachable {
            200u16
        } else {
            503u16
        }),
        r.status@ == (if store_reachable {
            "ready"@
        } else {
            "not_ready"@
        }),
        opt_text(r.store) == Some(
            if store_reachable {
                "healthy"@
            } else {
                "unhealthy"@
            },
        ),
{
    if store_reachable {
        ProbeResult {
            code: 200,
            status: String::from_str("ready"),
            store: Some(String::from_str("healthy")),
        }
    } else {
        ProbeResult {
            code: 503,
            status: String::from_str("not_ready"),
            store: Some(String::from_str("unhealthy")),
        }
    }
}

/// The detailed status: always 200; `healthy` overall when the store is
/// reachable, else `degraded`; the embedding engine is reported as not
/// loaded; and the cache settings of `config`.
pub fn detailed_status(config: &Config, store_reachable: bool, uptime_seconds: u64, version: &str) -> (r:
    StatusReport)
    ensures
        r.code == 200,
        r.status@ == (if store_reachable {
            "healthy"@
        } else {
            "degraded"@
        }),
        r.version@ == version@,
        r.uptime_seconds == uptime_seconds,
        r.store_status@ == (if store_reachable {
            "healthy"@
        } else {
            "unhealthy"@
        }),
        r.store_url@ == config.qdrant_url@,
        r.embedding_status@ == "not_loaded"@,
        r.embedding_path@ == config.embedding_model_path@,
        r.cache_ttl_hours == config.cache_ttl_hours,
        r.similarity_threshold == config.similarity_threshold,
        r.max_cache_size == config.max_cache_size,
{
    StatusReport {
        code: 200,
        status: String::from_str(
            if store_reachable {
                "healthy"
            } else {
                "degraded"
            },
        ),
        version: String::from_str(version),
        uptime_seconds,
        store_status: String::from_str(
            if store_reachable {
                "healthy"
            } else {
                "unhealthy"
            },
        ),
        store_url: config.qdrant_url.clone(),
        embedding_status: String::from_str("not_loaded"),
        embedding_path: config.embedding_model_path.clone(),
        cache_ttl_hours: config.cache_ttl_hours,
        similarity_threshold: config.similarity_threshold,
        max_cache_size: config.max_cache_size,
    }
}

/// The store's health endpoint under its base URL.
pub fn health_check_url(base: &str) -> (r: String)
    ensures
        r@ == base@ + "/healthz"@,
{
    let mut r = String::from_str(base);
    r.append("/healthz");
    r
}

} // verus!
