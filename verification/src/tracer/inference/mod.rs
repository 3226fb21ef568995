//! Inference of API descriptions from observed traffic.

pub mod schema_inferrer;
pub mod path_analyzer;
pub mod openapi_generator;
