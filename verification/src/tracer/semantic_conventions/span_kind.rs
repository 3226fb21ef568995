//! Span kinds.

use vstd::prelude::*;

verus! {

/// Server span (incoming request handler).
pub const SERVER: i32 = 2;

/// Client span (outgoing request).
pub const CLIENT: i32 = 3;

/// Producer span (message producer).
pub const PRODUCER: i32 = 4;

/// Consumer span (message consumer).
pub const CONSUMER: i32 = 5;

} // verus!
