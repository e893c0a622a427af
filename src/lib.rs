//! Adaptive polling of followed accounts' starred repositories: the cadence
//! engine, the store model with its invariants, and the helpers around them.
pub mod cadence;
pub mod schedule;
pub mod store;
pub mod laws;
pub mod forge;
pub mod pipeline;
pub mod text;
pub mod http;
pub mod query;
pub mod config;
pub mod poller;
pub mod feed;
