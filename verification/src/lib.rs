//! The decisions of the CE testing harness.
//!
//! The harness spins chain-free nodes, runs modules on them, drives requests between them and
//! tears everything down. Its command line runs the suites of a `cetest.toml`. This library holds
//! what both decide and compute: which suites a run selects and where they run, which commands
//! start them and the nodes, what their ends and answers mean, and how all of it is reported. It
//! starts no process, opens no file and asks no network: it names what is to be done, and takes
//! what came of it.
//!
//! - [`config`]: the configuration and its suites.
//! - [`runner`] and [`local`]: a run of suites, step by step, and what one suite runs here.
//! - [`report`]: the results of a run, their counts and their JSON document.
//! - [`cli`]: the command line and what it shows.
//! - [`harness`], [`bootstrap`] and [`poll`]: nodes under test, who they are, and waiting for them.
//! - [`laws`]: what holds of every run as a whole.
//! - [`command`], [`json`], [`paths`] and [`text`]: what the others are made of.

pub mod bootstrap;
pub mod cli;
pub mod command;
pub mod config;
pub mod harness;
pub mod json;
pub mod laws;
pub mod local;
pub mod paths;
pub mod poll;
pub mod report;
pub mod runner;
pub mod text;
