//! Server attributes (stable).

use vstd::prelude::*;

verus! {

/// Server address (hostname or IP).
pub const SERVER_ADDRESS: &'static str = "server.address";

/// Server port.
pub const SERVER_PORT: &'static str = "server.port";

} // verus!
