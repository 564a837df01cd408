//! A durable message queue: the dispatch state machine over its tables, the
//! retry backoff strategies, identifier quoting and the poll pacing of a worker.

pub mod backoff;
pub mod listener;
pub mod migrator;
pub mod models;
pub mod queries;
pub mod testing_tools;
pub mod time;
