//! Ingestion library for periodically published tabular reference
//! datasets: an idempotent run engine and a dedup-and-link pipeline.
//!
//! The verified logic covers per-field normalization of raw rows
//! (`mapper`, `model`), address deduplication against a composite
//! natural key (`dedup`), batched idempotent upserts and foreign-key
//! linking against a store model (`store`), the skip/run decision
//! engine (`engine`), content fingerprinting (`fingerprint`), and the
//! provider-of-services dataset loader (`pos`).

pub mod archive;
pub mod args;
pub mod dedup;
pub mod engine;
pub mod fingerprint;
pub mod mapper;
pub mod meta;
pub mod model;
pub mod pos;
pub mod store;
pub mod text;
