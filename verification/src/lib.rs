//! Deferred git commits and pushes: the scheduling and execution core.
//!
//! The crate holds the decisions of the tool as verified functions over
//! plain values: how a time expression becomes a timestamp, how the queue
//! and the log change, which git command comes next while a branch is
//! pushed, and what the daemon does after each attempt. Reading files,
//! running `git` and sleeping are left to the program built around it.

pub mod cli;
pub mod daemon;
pub mod error;
pub mod executor;
pub mod git;
pub mod models;
pub mod order;
pub mod schedule;
pub mod storage;
pub mod text;
pub mod time;
