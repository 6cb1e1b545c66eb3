//! Observability.

pub mod metrics;
