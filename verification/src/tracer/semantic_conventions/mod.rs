//! OpenTelemetry semantic conventions for HTTP spans (v1.29.0), and the
//! reading of span attributes.

pub mod http;
pub mod url;
pub mod server;
pub mod client;
pub mod network;
pub mod user_agent;
pub mod error;
pub mod service;
pub mod span_kind;
pub mod attributes;
