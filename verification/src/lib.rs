//! Measurement and scoring engine for a set of local SOCKS5 proxy nodes.
//!
//! Each node is probed for latency and, optionally, for throughput. This
//! crate holds the rules of that process: which inbounds of a configuration
//! are nodes to measure, when sampling stops, how samples are reduced to
//! statistics, how a transfer becomes a rate, and how the measured nodes are
//! ordered. Performing the requests is left to the caller, who feeds the
//! outcomes back as plain values.
//!
//! Durations are whole microseconds or nanoseconds and every derived quantity
//! is an exact integer or a quotient of two integers.

pub mod evaluator;
pub mod inventory;
pub mod latency;
pub mod ranker;
pub mod report;
pub mod run;
pub mod sampler;
pub mod text;
pub mod throughput;
