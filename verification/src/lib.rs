//! A stride scheduler for a single-core kernel: the ready queue that picks the
//! next task to run, and the per-task bookkeeping that the switch paths update.

pub mod config;
pub mod context;
pub mod manager;
pub mod task;
