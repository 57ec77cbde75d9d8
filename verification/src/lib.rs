//! Benchmarks a list of VPN endpoints: after each connection switch the
//! egress address is validated against the endpoint's resolved address,
//! a speed sample is parsed from the measurement program's output, and the
//! endpoints are ranked by two weighted composite scores (gaming and
//! general usage).
//!
//! All measured quantities (latency, jitter, packet loss, throughput) are
//! carried as fixed-point integers in thousandths of their unit, so that
//! parsing, scoring and reporting are exact and fully verified.

pub mod addr;
pub mod config;
pub mod eval;
pub mod milli;
pub mod outcome;
pub mod report;
pub mod sample;
pub mod score;
pub mod switch;
