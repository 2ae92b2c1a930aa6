//! Backup and restore of directory trees onto an external backup disk.
//!
//! The library holds the rules of the tool: how paths are normalised for each
//! platform, how the destination of every configured route is built, how the
//! exclusion list and the answers of the user are read, which disk is the
//! backup disk and in which order it is checked, what the copy commands are
//! and how their results are read, and how the log files are named. The program around it reads
//! files, queries the system and runs the copy commands.

pub mod text;
pub mod platform;
pub mod config;
pub mod backup;
pub mod restore;
pub mod cli;
pub mod commands;
pub mod tools;
