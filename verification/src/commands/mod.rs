//! The subcommands of `lowfat`.
pub mod info;
pub mod plugin;
pub mod stats;
