//! The per-platform hotkey binders. Applying a binding talks to the
//! desktop environment and lives outside the library; the types, and the
//! operations that decide nothing platform-specific, live here.

use vstd::prelude::*;

verus! {

/// The hotkey binder of a Linux desktop.
#[derive(Debug, Clone, Copy, PartialEq, Eq, Structural)]
pub struct LinuxBinder;

impl LinuxBinder {
    /// A fresh Linux binder.
    pub fn new() -> (r: LinuxBinder)
        ensures
            r == LinuxBinder,
    {
        LinuxBinder
    }

    /// Removing the Linux binding is a no-op and always succeeds.
    pub fn remove_hotkey(&self) -> (r: Result<(), String>)
        ensures
            r is Ok,
    {
        Ok(())
    }
}

/// The hotkey binder of a Windows machine.
#[derive(Debug, Clone, Copy, PartialEq, Eq, Structural)]
pub struct WindowsBinder;

impl WindowsBinder {
    /// A fresh Windows binder.
    pub fn new() -> (r: WindowsBinder)
        ensures
            r == WindowsBinder,
    {
        WindowsBinder
    }
}

} // verus!
