//! Metrics engine of a synthetic HTTP load endpoint: artificial delay
//! policy, rolling requests-per-second window, latency statistics and a
//! bounded request log, all with verified contracts.

pub mod delay;
pub mod format;
pub mod metrics;
pub mod state;
pub mod stats;
