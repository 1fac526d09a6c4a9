//! The command-line front end: command logic and output formatting.
pub mod commands;
pub mod display;
pub mod dry_run;

pub use dry_run::{format_dry_run, Args};
