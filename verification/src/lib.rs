//! Latency statistics for an HTTP load tester.
//!
//! The crate holds the rules of a load-testing run: how a request count is
//! shared among workers, what one measured request records, how a set of
//! measurements is condensed into a [`Summary`], how the report of a run is
//! laid out, and how a byte count is written for people to read.

pub mod content_length;
pub mod decimal;
pub mod dispatch;
pub mod duration;
pub mod model;
pub mod report;
pub mod sorting;
pub mod stats;

pub use content_length::ContentLength;
pub use dispatch::{join, worker_share, Action, Event, Phase, Worker};
pub use duration::Duration;
pub use stats::{Fact, Summary};
