//! Runners that execute generated test scripts.

pub mod k6;
