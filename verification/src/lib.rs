//! Arazzo workflow tooling: workflow models and their validation, flow graphs,
//! k6 script generation, and inference of OpenAPI and Arazzo documents from
//! recorded HTTP traces.

pub mod cli;
pub mod text;
pub mod json;
pub mod error;
pub mod models;
pub mod graph;
pub mod converters;
pub mod tracer;
pub mod runner;
pub mod export;
pub mod loader;
pub mod server;
pub mod lsp;
pub mod telemetry;
