//! The ways into the agent.
pub mod cli;
pub mod editor;
pub mod ids;
pub mod report;
pub mod serve;
pub mod tui;
