//! A data-processing job service core: the job registry and its state
//! machine, the operation pipeline over record sets, the validation engine
//! and the metrics aggregator.

pub mod aggregate;
pub mod clock;
pub mod config;
pub mod dedup;
pub mod delimited;
pub mod engine;
pub mod error;
pub mod expr;
pub mod http;
pub mod ident;
pub mod ingest;
pub mod job;
pub mod join;
pub mod json;
pub mod metrics;
pub mod ops;
pub mod pattern;
pub mod processor;
pub mod record;
pub mod result;
pub mod sink;
pub mod sorting;
pub mod store;
pub mod text;
pub mod transform;
pub mod validation;
pub mod value;
