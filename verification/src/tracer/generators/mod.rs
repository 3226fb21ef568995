//! Generators of documents from recorded spans.

pub mod arazzo_generator;
pub mod stub_generator;
