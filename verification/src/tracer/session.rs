//! The receiver's session control: which session is active and the
//! statistics counted for it, and what starting and stopping a session do.

use vstd::prelude::*;
use crate::tracer::types::{TraceConfig, TraceSession, TraceStatistics};

verus! {

/// Statistics with nothing counted.
pub open spec fn empty_stats(s: TraceStatistics) -> bool {
    &&& s.total_spans == 0
    &&& s.incoming_requests == 0
    &&& s.outgoing_requests == 0
    &&& s.unique_endpoints == 0
    &&& s.unique_dependencies == 0
    &&& s.status_codes@ == Map::<u16, u64>::empty()
}

/// Two statistics count the same.
pub open spec fn same_stats(a: TraceStatistics, b: TraceStatistics) -> bool {
    &&& a.total_spans == b.total_spans
    &&& a.incoming_requests == b.incoming_requests
    &&& a.outgoing_requests == b.outgoing_requests
    &&& a.unique_endpoints == b.unique_endpoints
    &&& a.unique_dependencies == b.unique_dependencies
    &&& a.status_codes@ == b.status_codes@
}

impl TraceStatistics {
    /// A copy of the statistics.
    pub fn copy(&self) -> (r: Self)
        ensures
            same_stats(r, *self),
    {
        TraceStatistics {
            total_spans: self.total_spans,
            incoming_requests: self.incoming_requests,
            outgoing_requests: self.outgoing_requests,
            unique_endpoints: self.unique_endpoints,
            unique_dependencies: self.unique_dependencies,
            status_codes: self.status_codes.clone(),
        }
    }
}

/// A session just started: under `id`, named `name`, started at
/// `started_at`, not ended, with the default configuration and nothing
/// counted.
pub fn new_session(id: String, name: Option<String>, started_at: i64) -> (s: TraceSession)
    ensures
        s.id == id,
        s.name == name,
        s.started_at == started_at,
        s.ended_at is None,
        s.config.target_services@.len() == 0,
        s.config.target_ports@.len() == 0,
        s.config.external_hosts@.len() == 0,
        s.config.capture_bodies,
        s.config.max_body_size == 65536,
        empty_stats(s.statistics),
{
    TraceSession {
        id,
        name,
        started_at,
        ended_at: None,
        config: TraceConfig::default(),
        statistics: TraceStatistics::default(),
    }
}

/// A stored session as stopping it leaves it: ended at `ended_at`, with the
/// statistics counted for it, and otherwise as it was.
pub fn stopped_session(session: TraceSession, ended_at: i64, stats: TraceStatistics) -> (r: TraceSession)
    ensures
        r == (TraceSession { ended_at: Some(ended_at), statistics: stats, ..session }),
{
    TraceSession { ended_at: Some(ended_at), statistics: stats, ..session }
}

/// The active session, if any, and the statistics counted for it.
pub struct SessionControl {
    pub active_session_id: Option<String>,
    pub stats: TraceStatistics,
}

impl SessionControl {
    /// No session active and nothing counted.
    pub fn new() -> (c: Self)
        ensures
            c.active_session_id is None,
            empty_stats(c.stats),
    {
        SessionControl { active_session_id: None, stats: TraceStatistics::default() }
    }

    /// Makes `id` the active session, counting from nothing.
    pub fn start(&mut self, id: String)
        ensures
            final(self).active_session_id == Some(id),
            empty_stats(final(self).stats),
    {
        self.active_session_id = Some(id);
        self.stats = TraceStatistics::default();
    }

    /// Ends the active session: none is active afterwards, and the one that
    /// was is given with a copy of its statistics, which stay as they were.
    pub fn stop(&mut self) -> (r: Option<(String, TraceStatistics)>)
        ensures
            final(self).active_session_id is None,
            final(self).stats == old(self).stats,
            match old(self).active_session_id {
                None => r is None,
                Some(id) => r matches Some((rid, s)) && rid == id && same_stats(s, old(self).stats),
            },
    {
        match self.active_session_id.take() {
            None => None,
            Some(id) => Some((id, self.stats.copy())),
        }
    }
}

} // verus!
