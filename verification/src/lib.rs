//! Browsing the commits of a repository and choosing whom to pair with.
//!
//! The library reads the text of the log into commits, lists the people that
//! the commits name, holds the table of commits with its cursor, and decides
//! what each event does to the session. It runs no command, draws nothing and
//! writes no file: it says as plain values what is to be run, drawn and
//! written.

pub mod error;
pub mod git;
pub mod heartbeat;
pub mod interaction;
pub mod log_format;
pub mod run_command;
pub mod screen;
pub mod select_pairs;
pub mod sorting;
pub mod stateful_table;
pub mod structs;
pub mod table;
pub mod text;
