//! Observability: structured records, metrics, and the probe endpoint.

pub mod clock;
pub mod events;
pub mod http;
pub mod log;
pub mod metrics;
