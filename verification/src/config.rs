//! The persisted configuration: the hotkey display string.

use vstd::prelude::*;

verus! {

/// The default hotkey display string.
pub const DEFAULT_HOTKEY_DISPLAY: &'static str = "Ctrl+Alt+K";

/// The application's configuration.
#[derive(Debug, Clone, PartialEq, Eq)]
pub struct Config {
    pub hotkey: String,
}

impl Config {
    /// The configuration with every setting at its default.
    pub fn with_defaults() -> (r: Config)
        ensures
            r.hotkey@ == DEFAULT_HOTKEY_DISPLAY@,
    {
        Config { hotkey: String::from_str(DEFAULT_HOTKEY_DISPLAY) }
    }
}

} // verus!
