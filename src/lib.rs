//! Operational core of a semantic caching proxy: configuration loading and
//! validation, the error taxonomy, the metrics registry, health probes and
//! start-up decisions.

pub mod bootstrap;
pub mod config;
pub mod decimal;
pub mod errors;
pub mod health;
pub mod metrics;
pub mod parse;
pub mod settings;
pub mod text;
