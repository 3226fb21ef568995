//! URL attributes (stable).

use vstd::prelude::*;

verus! {

/// Full URL (scheme://host:port/path?query#fragment).
pub const URL_FULL: &'static str = "url.full";

/// URL path component.
pub const URL_PATH: &'static str = "url.path";

/// URL query string (without leading ?).
pub const URL_QUERY: &'static str = "url.query";

/// URL scheme (http, https).
pub const URL_SCHEME: &'static str = "url.scheme";

} // verus!
