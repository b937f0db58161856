//! A fixed-duration, fixed-concurrency load generator: one request, repeated by a number
//! of workers for a given time, and the distribution of its latencies.
//!
//! - [`stats`]: the record of the latencies, with count, extremes and percentiles;
//!   [`sorting`] ranks the samples.
//! - [`cli`]: the command line.
//! - [`endpoint`]: the request, from an entry of the request file; [`transport`] hands
//!   it to the HTTP client.
//! - [`worker`], [`reporter`], [`run`]: the loop of a worker, the live status and the
//!   life cycle of a run, each as a state machine that a driver with threads, a channel
//!   and a clock follows.
//! - [`error`]: what can go wrong.
//!
//! Durations and latencies are whole nanoseconds throughout.

pub mod cli;
pub mod endpoint;
pub mod error;
pub mod reporter;
pub mod run;
pub mod sorting;
pub mod stats;
pub mod text;
pub mod transport;
pub mod worker;
