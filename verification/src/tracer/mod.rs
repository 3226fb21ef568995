//! Trace collection: configuration, span types and the logic that turns
//! observed traffic into API descriptions, workflows and stubs.

pub mod config;
pub mod types;
pub mod semantic_conventions;
pub mod span_classifier;
pub mod otlp_receiver;
pub mod otlp_wire;
pub mod session;
pub mod store;
pub mod generators;
pub mod inference;
