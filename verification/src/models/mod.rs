//! Document models: Arazzo workflows and the parts of OpenAPI documents that
//! the workflows refer to.

pub mod arazzo;
pub mod openapi;
