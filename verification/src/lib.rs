//! Verified core of a distributed video transcoding service: job and task
//! bookkeeping, task allocation with dependencies, expiring maps, status
//! reporting and the construction of encoder command lines.

use vstd::prelude::*;

pub mod ids;
pub mod jobs;
pub mod job_db;
pub mod task;
pub mod manager;
pub mod timed_map;
pub mod clock;
pub mod status;
pub mod headers;
pub mod paths;
pub mod command;
pub mod clients;
pub mod auth;
pub mod scheduler;
pub mod job_manager;
pub mod progress;
pub mod models;
pub mod storage;
pub mod api;
pub mod runner;
pub mod job_scheduler;
pub mod echo;
pub mod static_files;
pub mod weak_map;

verus! {

} // verus!
