//! A time-driven pipeline execution engine: the decisions of a scheduler that
//! polls pipeline definitions, works out which of them are due, and runs the
//! task chain of each due pipeline up to its first failing task.
//!
//! The library decides; it does not wait. Which pipelines are due, which task
//! of a run comes next, what is recorded of an attempt, and when to give up on
//! a store that fails, is worked out here from plain values. Talking to the
//! store, spawning processes and sleeping are left to the program that drives
//! these functions.
//!
//! - [`cron`] gives the next fire instant of a cron expression.
//! - [`schedule`] tracks the next fire instant of every pipeline and finds
//!   the pipelines that are due.
//! - [`runner`] steps through the task chain of one due pipeline.
//! - [`retry`] bounds the tries against a failing store.
//! - [`clock`] and [`text`] write instants, numbers and bytes as text.
//! - [`models`], [`manifests`], [`config`] and [`api`] hold the records, the
//!   manifests that declare them, the settings, and the shapes of the web
//!   interface.

pub mod api;
pub mod clock;
pub mod config;
pub mod cron;
pub mod manifests;
pub mod models;
pub mod retry;
pub mod runner;
pub mod schedule;
pub mod text;
