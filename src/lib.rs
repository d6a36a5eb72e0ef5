//! Connectivity-outage detection: probing HTTP(S) targets with bounded
//! retries, falling back across targets, and turning the per-tick verdicts
//! into debounced, edge-triggered online/offline transitions.

pub mod probe;
pub mod tick;
pub mod monitor;
pub mod config;
