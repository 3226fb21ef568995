//! HTTP request attributes (stable).

use vstd::prelude::*;

verus! {

/// HTTP request method (GET, POST, etc.).
pub const HTTP_REQUEST_METHOD: &'static str = "http.request.method";

/// Original HTTP method for method override scenarios.
pub const HTTP_REQUEST_METHOD_ORIGINAL: &'static str = "http.request.method_original";

/// HTTP response status code.
pub const HTTP_RESPONSE_STATUS_CODE: &'static str = "http.response.status_code";

/// Size of the request body in bytes.
pub const HTTP_REQUEST_BODY_SIZE: &'static str = "http.request.body.size";

/// Size of the response body in bytes.
pub const HTTP_RESPONSE_BODY_SIZE: &'static str = "http.response.body.size";

/// The matched route template (e.g. /users/{id}).
pub const HTTP_ROUTE: &'static str = "http.route";

} // verus!
