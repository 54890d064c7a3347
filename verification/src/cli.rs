//! The data of the command-line surface. Argument parsing itself is
//! platform glue outside the library; these types carry its result.

use vstd::prelude::*;

verus! {

/// The subcommands the program accepts.
#[derive(Debug, Clone, PartialEq, Eq)]
pub enum Commands {
    /// Run the text transformation once.
    Run,
    /// Set the global hotkey.
    SetHotkey { hotkey: String },
}

/// The parsed command line: the subcommand selected, if any.
#[derive(Debug, Clone, PartialEq, Eq)]
pub struct Cli {
    pub command: Option<Commands>,
}

} // verus!
