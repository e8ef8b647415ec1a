//! A single-threaded cooperative task executor, modelled as a verified state
//! machine: context switchers, tasks with their lifecycle and tick counters,
//! and an executor whose run loop launches, suspends and resumes tasks.

pub mod status;
pub mod switcher;
pub mod task;
pub mod pools;
pub mod executor;
pub mod laws;
