//! What the editor's HTTP API computes: problem reports, project and
//! workflow listings, workflow edits, validation reports and the listing of
//! OpenAPI operations.

pub mod operations;
pub mod api;
