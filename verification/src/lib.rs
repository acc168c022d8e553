//! Decision logic of a parallel front end to the Homebrew package manager.
//!
//! The library decides and the program around it acts. For each user command
//! the [`orchestrator`] says which step comes next: look for the package tool,
//! run a command, read a query's answer, run many commands in parallel. For the
//! parallel steps the [`engine`] says which command may start now, so that never
//! more are in flight than the [`limiter`] allows, takes in how each command
//! ended, and tallies the run once every command has ended. Neither starts a
//! process or prints a line: the driver does, and reports back.
//!
//! - [`command`]: work items, the commands built from them, and their outcomes
//! - [`batch`]: cutting a list of packages into batches
//! - [`outcome`]: the result of one item and the tally of a run
//! - [`limiter`]: the counter that bounds the commands in flight
//! - [`schedule`]: the engine's rules as a state machine over plain values
//! - [`engine`]: the engine itself
//! - [`query`]: reading what the tool's queries print
//! - [`orchestrator`]: the steps of update, upgrade, install and reinstall
//! - [`config`]: the limits of a run

pub mod batch;
pub mod command;
pub mod config;
pub mod engine;
pub mod limiter;
pub mod orchestrator;
pub mod outcome;
pub mod query;
pub mod schedule;
