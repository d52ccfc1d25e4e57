//! Decision logic of a small collection of asynchronous programs: timed
//! work units, a command-processing worker, a shared key-value store, a
//! cancellable pinger and a job-processing pipeline with graceful shutdown.
//!
//! The asynchronous runtime (spawning, sleeping, channels, locks, signal
//! handling) lives outside this crate; every decision those programs take
//! is a verified function here.

pub mod basics;
pub mod channels;
pub mod decimal;
pub mod jobs;
pub mod patterns;
pub mod shared_state;

