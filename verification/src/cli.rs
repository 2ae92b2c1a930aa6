//! The command line of the tool.

use vstd::prelude::*;

verus! {

/// The parsed command line.
pub struct Cli {
    pub command: Commands,
}

/// What the tool is asked to do.
pub enum Commands {
    /// Back up every configured route.
    Backup,
    /// Restore from the backup: only the routes whose destination contains
    /// `path` when it is given, and without asking first when `force` is set.
    Restore { path: Option<String>, force: bool },
}

} // verus!
