//! Service resource attributes.

use vstd::prelude::*;

verus! {

/// Service name.
pub const SERVICE_NAME: &'static str = "service.name";

/// Service version.
pub const SERVICE_VERSION: &'static str = "service.version";

/// Service namespace.
pub const SERVICE_NAMESPACE: &'static str = "service.namespace";

} // verus!
