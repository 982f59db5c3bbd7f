//! Data plane of an API gateway: route matching and path rewriting, whitelist
//! evaluation, sliding-window and token-bucket rate-limit decisions, the
//! configuration snapshot, backend health gating and audit records.
pub mod app_config;
pub mod audit;
pub mod error;
pub mod health;
pub mod ids;
pub mod limit_model;
pub mod models;
pub mod proxy;
pub mod rate_limiter;
pub mod request;
pub mod response;
pub mod router;
pub mod snapshot;
pub mod text;
pub mod whitelist;
