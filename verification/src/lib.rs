//! Verified core of the Monux command-line tool: input validation, command
//! planning, diagnostic evaluation and report rendering.

pub mod text;
pub mod numbers;
pub mod capabilities;
pub mod diagnostics;
pub mod evaluate;
pub mod command;
pub mod paths;
pub mod probe;
pub mod checks;
pub mod commands;
pub mod removal;
pub mod platform;
pub mod report;
pub mod runner;
pub mod cli;
pub mod help;
pub mod laws;
