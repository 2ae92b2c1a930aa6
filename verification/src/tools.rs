//! Checks of the backup disk, dates, and the locating of the configuration.

pub mod check_drive_backup;
pub mod config_loader;
pub mod structs;
