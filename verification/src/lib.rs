//! The decision core of a personal coding agent: configuration, context
//! budgeting, scheduled jobs, the turn loop, the daemon protocol and the
//! terminal interface, each as plain functions on plain values.
use vstd::prelude::*;

pub mod config;
pub mod context;
pub mod cron;
pub mod daemon;
pub mod entry;
pub mod json;
pub mod loop_engine;
pub mod provider;
pub mod text;
pub mod trace;

verus! {

} // verus!
