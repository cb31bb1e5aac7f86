//! A pool of reusable child processes.
//!
//! The pool owns long-lived worker processes and exchanges one line of JSON per request and
//! per response with each of them. A worker has one task at a time; the pool runs tasks side
//! by side by managing several workers. Around it stand the service that offers it to remote
//! callers, and the conversations that the service can run beside the pool.
//!
//! Nothing here starts a process, reads a pipe or waits. The pool, the attendant of a worker,
//! a conversation and the service are machines: their host performs what a step asks for and
//! reports back what came of it.
use vstd::prelude::*;

pub mod text;
pub mod table;
pub mod json;
pub mod reading;
pub mod error;
pub mod config;
pub mod protocol;
pub mod workers;
pub mod schedule;
pub mod pool;
pub mod laws;
pub mod runner;
pub mod lines;
pub mod agent;
pub mod session;
pub mod tools;
pub mod agents;
pub mod errands;
pub mod server;
pub mod echo;
pub mod documents;
pub mod conduct;
pub mod writing;
pub mod calls;
pub mod dialogue;
pub mod faithful;
pub mod wording;

pub use config::{
    PoolConfig, ProcessFactoryConfig, RejectedExecutionHandler, TimeSpan, TimeUnit, WorkQueueConfig,
};
pub use error::PoolError;
pub use pool::{PoolStats, ProcessPool, WorkerState, WorkerStats};
pub use protocol::{WorkerError, WorkerRequest, WorkerResponse};
