//! The decisions and texts of each `arbor` subcommand.

pub mod clone;
pub mod init;
pub mod add;
pub mod clean;
pub mod remove;
pub mod prune;
pub mod list;
