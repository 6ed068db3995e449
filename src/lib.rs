//! A resumable, rate-limited, concurrent chunk-download engine and the job
//! table and control protocol of the daemon that runs it.
pub mod planner;
pub mod state;
pub mod error;
pub mod decimal;
pub mod worker;
pub mod ratelimit;
pub mod jobs;
pub mod ipc;
pub mod config;
pub mod observer;
pub mod orchestrator;
pub mod filemodel;
