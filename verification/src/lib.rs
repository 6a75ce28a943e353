//! Verified core of an automobile-inventory backend: stock reservations with
//! expiry, two-warehouse transfers, version-guarded updates, a circuit
//! breaker, a bounded TTL query cache, analytics over the inventory model,
//! and the pure parts of the request pipeline and configuration handling.

pub mod analytics;
pub mod cache;
pub mod cars;
pub mod circuit_breaker;
pub mod clock;
pub mod config;
pub mod errors;
pub mod health;
pub mod ids;
pub mod models;
pub mod numfmt;
pub mod pagination;
pub mod pipeline;
pub mod reservations;
pub mod sales;
pub mod store;
pub mod transfers;
pub mod textutil;
pub mod uuids;
pub mod worker;
