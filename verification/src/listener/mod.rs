//! Pacing of a worker's polls.

pub mod poll_control;

pub use poll_control::{PollControlStream, PollStep, UpstreamPoll};
