//! The k6 runner: which binary runs a script, and with which arguments.

use vstd::prelude::*;
use crate::text::{first_capture, regex_capture, views_of};
use crate::tracer::config::{parse_bounded, parsed_bounded};

verus! {

/// Runner for k6 test scripts.
pub struct K6Runner {
    /// Path to the k6 binary (`k6` on the search path by default).
    pub k6_path: String,
    /// Additional k6 arguments.
    pub extra_args: Vec<String>,
}

impl K6Runner {
    /// A runner of `k6` with no extra arguments.
    pub fn new() -> (r: Self)
        ensures
            r.k6_path@ == "k6"@,
            r.extra_args@.len() == 0,
    {
        K6Runner { k6_path: String::from_str("k6"), extra_args: Vec::new() }
    }

    /// A runner of the k6 binary at `path`, with no extra arguments.
    pub fn with_path(path: String) -> (r: Self)
        ensures
            r.k6_path@ == path@,
            r.extra_args@.len() == 0,
    {
        K6Runner { k6_path: path, extra_args: Vec::new() }
    }

    /// The runner with these extra arguments in place of its own.
    pub fn with_args(self, args: Vec<String>) -> (r: Self)
        ensures
            r.k6_path@ == self.k6_path@,
            views_of(r.extra_args@) == views_of(args@),
    {
        K6Runner { extra_args: args, ..self }
    }

    /// The arguments of the k6 command that runs a script: `run`, the
    /// extra arguments, then the script's path.
    pub fn run_arguments(&self, script_path: &str) -> (v: Vec<String>)
        ensures
            views_of(v@) == seq!["run"@] + views_of(self.extra_args@) + seq![script_path@],
    {
        let mut v: Vec<String> = Vec::new();
        v.push(String::from_str("run"));
        let mut i: usize = 0;
        while i < self.extra_args.len()
            invariant
                i <= self.extra_args@.len(),
                views_of(v@) == seq!["run"@] + views_of(self.extra_args@).subrange(0, i as int),
            decreases self.extra_args.len() - i,
        {
            let ghost before = v@;
            v.push(self.extra_args[i].clone());
            assert(views_of(v@) =~= views_of(before).push(self.extra_args@[i as int]@));
            assert(views_of(v@) =~= seq!["run"@] + views_of(self.extra_args@).subrange(0, i + 1));
            i = i + 1;
        }
        let ghost before = v@;
        v.push(String::from_str(script_path));
        assert(views_of(v@) =~= views_of(before).push(script_path@));
        assert(views_of(self.extra_args@).subrange(0, i as int) =~= views_of(self.extra_args@));
        v
    }
}

impl Default for K6Runner {
    /// A runner with an empty binary path and no extra arguments.
    fn default() -> (r: Self)
        ensures
            r.k6_path@.len() == 0,
            r.extra_args@.len() == 0,
    {
        K6Runner { k6_path: String::new(), extra_args: Vec::new() }
    }
}

// ---------------------------------------------------------------- run summaries

/// The counts that the summary k6 prints at the end of a run gives.
pub struct RunCounts {
    pub http_reqs: u64,
    pub iterations: u64,
    pub vus: u32,
    pub checks_passed: u64,
    pub checks_failed: u64,
}

/// The number in the first capture of `pattern` in `stdout`: the captured
/// text read as a number up to `max`, zero when nothing is captured or the
/// text does not read as one.
pub open spec fn captured_count(pattern: Seq<char>, stdout: Seq<char>, max: nat) -> nat {
    match regex_capture(pattern, stdout) {
        Some(t) => match parsed_bounded(t, max) {
            Some(v) => v,
            None => 0,
        },
        None => 0,
    }
}

/// The number in the first capture of `pattern` in `stdout`, up to `max`.
fn captured(pattern: &str, stdout: &str, max: u64) -> (r: u64)
    ensures
        r == captured_count(pattern@, stdout@, max as nat),
{
    match first_capture(pattern, stdout) {
        Some(t) => match parse_bounded(t.as_str(), max) {
            Some(v) => v,
            None => 0,
        },
        None => 0,
    }
}

/// The counts in a k6 run summary: HTTP requests, iterations and virtual
/// users from their lines, and passed and failed checks from the checks
/// line; each zero where its line is missing or its number does not fit.
pub fn run_counts(stdout: &str) -> (c: RunCounts)
    ensures
        c.http_reqs == captured_count("http_reqs[.\\s]+:\\s+(\\d+)"@, stdout@, u64::MAX as nat),
        c.iterations == captured_count("iterations[.\\s]+:\\s+(\\d+)"@, stdout@, u64::MAX as nat),
        c.vus == captured_count("vus[.\\s]+:\\s+(\\d+)"@, stdout@, u32::MAX as nat),
        c.checks_passed == captured_count(
            "checks[.\\s]+:\\s+(?:\\d+\\.?\\d*)%\\s+✓\\s+(\\d+)\\s+✗\\s+(?:\\d+)"@,
            stdout@,
            u64::MAX as nat,
        ),
        c.checks_failed == captured_count(
            "checks[.\\s]+:\\s+(?:\\d+\\.?\\d*)%\\s+✓\\s+(?:\\d+)\\s+✗\\s+(\\d+)"@,
            stdout@,
            u64::MAX as nat,
        ),
{
    let http_reqs = captured("http_reqs[.\\s]+:\\s+(\\d+)", stdout, u64::MAX);
    let iterations = captured("iterations[.\\s]+:\\s+(\\d+)", stdout, u64::MAX);
    let vus = captured("vus[.\\s]+:\\s+(\\d+)", stdout, 0xffff_ffff) as u32;
    let checks_passed = captured(
        "checks[.\\s]+:\\s+(?:\\d+\\.?\\d*)%\\s+✓\\s+(\\d+)\\s+✗\\s+(?:\\d+)",
        stdout,
        u64::MAX,
    );
    let checks_failed = captured(
        "checks[.\\s]+:\\s+(?:\\d+\\.?\\d*)%\\s+✓\\s+(?:\\d+)\\s+✗\\s+(\\d+)",
        stdout,
        u64::MAX,
    );
    RunCounts { http_reqs, iterations, vus, checks_passed, checks_failed }
}

} // verus!
