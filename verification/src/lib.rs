//! Core logic of a site uptime monitor.
//!
//! The monitor probes a configured set of sites on a fixed cadence, records
//! one reachability fact per site per minute, notifies on up/down
//! transitions, and publishes an aggregated status view.  This crate holds
//! the decision and bookkeeping logic of that cycle — the retry state
//! machine, the transition detector, the fact store semantics, the
//! 24-hour aggregation, and the concurrency bound — all verified.  Network,
//! storage and HTTP serving sit outside, handing plain values in and out.

pub mod cycle;
pub mod detector;
pub mod model;
pub mod prober;
pub mod scheduler;
pub mod store;
pub mod strkit;
pub mod timestamp;
