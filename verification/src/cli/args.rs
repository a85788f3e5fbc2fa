//! The arguments of the command line that the library's decisions read.

use vstd::prelude::*;

verus! {

/// Where a sort reads and writes: the source directory, and the target
/// directory when one is given (the source itself otherwise). Both may start
/// with `~` for the home directory.
#[derive(Debug)]
pub struct SortArgs {
    /// Source directory to scan for files.
    pub source: String,
    /// Target directory for sorted output.
    pub target: Option<String>,
}

/// Arguments for the `config` subcommand.
#[derive(Debug)]
pub struct ConfigArgs {
    /// Print the current configuration to stdout.
    pub show: bool,
    /// Open the configuration file in the system's editor.
    pub edit: bool,
}

} // verus!
