//! Client attributes (stable).

use vstd::prelude::*;

verus! {

/// Client address (peer address).
pub const CLIENT_ADDRESS: &'static str = "client.address";

/// Client port.
pub const CLIENT_PORT: &'static str = "client.port";

} // verus!
