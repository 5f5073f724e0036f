//! Admission control and scheduling core of a heterogeneous compute fleet.
//!
//! The crate tracks worker nodes, scores their fitness for work, classifies
//! their health, detects when the coordinating server is overloaded and picks
//! the nodes that receive offloaded shards.
//!
//! Every quantity is an integer, so that every result is exact:
//!
//! * ratios (loads, thresholds, factors) are in ten-thousandths
//!   ([`model::RATIO_SCALE`] stands for 1.0);
//! * times and round-trip times are in microseconds;
//! * memory bandwidth is in megabytes per second;
//! * hardware scores are in units of which [`model::SCORE_SCALE`] make one
//!   point.

mod clock;
pub mod command;
pub mod health;
pub mod model;
pub mod ranking;
pub mod registry;
pub mod scheduler;
pub mod scoring;
