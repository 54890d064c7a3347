//! Shifts a span of text typed under the wrong keyboard layout into the glyphs
//! it would have produced under the next installed layout.
//!
//! The heart of the crate is the detection and remapping engine: given the
//! text and an ordered snapshot of the installed layouts (each a
//! key-code-to-glyph table plus a writing direction), it infers which layout
//! most plausibly produced the text, picks the cyclic successor, re-derives
//! the text under that layout, and corrects the presentation order when the
//! two layouts write in opposite directions.

pub mod binder;
pub mod catalog;
pub mod chars;
pub mod cli;
pub mod config;
pub mod constants;
pub mod desktop;
pub mod hotkey;
pub mod ini;
pub mod inverse;
pub mod layout;
pub mod remap;

pub use layout::{KeyboardDirection, KeyboardLayout, LayoutMap};
pub use remap::{get_text_leyaout_map, shift, shift_text_language, ShiftError};

use crate::chars::{chars_string, spec_trim, str_chars, trim_chars};
use crate::hotkey::{normalize_display, spec_normalize_display};

use vstd::prelude::*;

verus! {

/// A validated hotkey: its display string in canonical form.
#[derive(Debug, Clone, PartialEq, Eq)]
pub struct HotkeySpec {
    pub display: String,
}

impl HotkeySpec {
    /// Validates a user-supplied hotkey string: trims it, rejects an empty
    /// one, and stores the canonical display form.
    pub fn from_display(value: &str) -> (r: Result<HotkeySpec, String>)
        ensures
            match r {
                Ok(h) => spec_trim(value@).len() > 0 && h.display@ == spec_normalize_display(
                    spec_trim(value@),
                ),
                Err(e) => spec_trim(value@).len() == 0 && e@ == "Hotkey cannot be empty"@,
            },
    {
        let chars = str_chars(value);
        let trimmed = trim_chars(&chars);
        if trimmed.len() == 0 {
            return Err(String::from_str("Hotkey cannot be empty"));
        }
        let trimmed_str = chars_string(&trimmed);
        Ok(HotkeySpec { display: normalize_display(trimmed_str.as_str()) })
    }
}

} // verus!
