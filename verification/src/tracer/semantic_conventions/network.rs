//! Network attributes (stable).

use vstd::prelude::*;

verus! {

/// Network protocol name (http, https).
pub const NETWORK_PROTOCOL_NAME: &'static str = "network.protocol.name";

/// Network protocol version (1.0, 1.1, 2, 3).
pub const NETWORK_PROTOCOL_VERSION: &'static str = "network.protocol.version";

/// Network transport (tcp, udp).
pub const NETWORK_TRANSPORT: &'static str = "network.transport";

} // verus!
