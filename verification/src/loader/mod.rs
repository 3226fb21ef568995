//! Locating the OpenAPI documents that Arazzo documents refer to.

pub mod paths;
pub mod source_resolver;
pub mod openapi_resolver;
pub mod openapi;

pub mod project;
