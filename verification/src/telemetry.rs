//! The guard held while the tool's own telemetry runs.

use vstd::prelude::*;

verus! {

/// Held while telemetry runs; flushing on release is done by its holder.
pub struct TelemetryGuard {}

impl TelemetryGuard {
    /// A guard.
    pub fn new() -> (g: Self) {
        TelemetryGuard {}
    }
}

impl Default for TelemetryGuard {
    fn default() -> (g: Self) {
        Self::new()
    }
}

} // verus!
