//! Command logic of the `lowfat` command-line tool, which filters command
//! output before it reaches an AI agent: what each subcommand decides and
//! prints, kept apart from the file system and the processes it runs.
pub mod commands;
pub mod embedded;
pub mod text;

pub use embedded::EmbeddedPlugin;
