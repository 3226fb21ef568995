//! User agent attributes.

use vstd::prelude::*;

verus! {

/// User agent original string.
pub const USER_AGENT_ORIGINAL: &'static str = "user_agent.original";

} // verus!
