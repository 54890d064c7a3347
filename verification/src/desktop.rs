//! Decisions of the desktop integration: which desktop environment the
//! session names, and the desktop-entry file the KDE binding writes.
//! Reading the environment and writing files stays outside the library.

use vstd::prelude::*;

use crate::chars::{
    contains_chars, lower_ascii_vec, spec_contains_seq, spec_lower_ascii_seq, str_chars,
};

verus! {

/// The desktop environments the hotkey binding knows.
#[derive(Debug, Clone, Copy, PartialEq, Eq, Structural)]
pub enum DesktopEnvironment {
    Gnome,
    Kde,
    Unknown,
}

/// Whether a session identifier names GNOME, ignoring ASCII case.
pub open spec fn spec_names_gnome(s: Seq<char>) -> bool {
    spec_contains_seq(spec_lower_ascii_seq(s), "gnome"@)
}

/// Whether a session identifier names KDE or Plasma, ignoring ASCII case.
pub open spec fn spec_names_kde(s: Seq<char>) -> bool {
    spec_contains_seq(spec_lower_ascii_seq(s), "kde"@) || spec_contains_seq(
        spec_lower_ascii_seq(s),
        "plasma"@,
    )
}

/// The desktop environment two session identifiers name: the current
/// desktop is consulted first, the session name second, GNOME before KDE.
pub open spec fn spec_classify_desktop(xdg: Seq<char>, session: Seq<char>) -> DesktopEnvironment {
    if spec_names_gnome(xdg) {
        DesktopEnvironment::Gnome
    } else if spec_names_kde(xdg) {
        DesktopEnvironment::Kde
    } else if spec_names_gnome(session) {
        DesktopEnvironment::Gnome
    } else if spec_names_kde(session) {
        DesktopEnvironment::Kde
    } else {
        DesktopEnvironment::Unknown
    }
}

/// Classifies the desktop environment from the two session identifiers the
/// environment reports (current desktop, then session name).
pub fn classify_desktop(xdg: &str, session: &str) -> (r: DesktopEnvironment)
    ensures
        r == spec_classify_desktop(xdg@, session@),
{
    let xl = lower_ascii_vec(&str_chars(xdg));
    if contains_chars(&xl, "gnome") {
        return DesktopEnvironment::Gnome;
    }
    if contains_chars(&xl, "kde") || contains_chars(&xl, "plasma") {
        return DesktopEnvironment::Kde;
    }
    let sl = lower_ascii_vec(&str_chars(session));
    if contains_chars(&sl, "gnome") {
        return DesktopEnvironment::Gnome;
    }
    if contains_chars(&sl, "kde") || contains_chars(&sl, "plasma") {
        return DesktopEnvironment::Kde;
    }
    DesktopEnvironment::Unknown
}

/// The desktop-entry file the KDE binding writes: the template with the
/// application name and its run command filled in.
pub fn desktop_file_contents() -> (r: String)
    ensures
        r@ == "[Desktop Entry]\nType=Application\nName="@ + "Keyboard Map Shift"@ + "\nExec="@
            + "keyboard_map_shift run"@ + "\nTerminal=false\nCategories=Utility;\n"@,
{
    let mut out = String::from_str("[Desktop Entry]\nType=Application\nName=");
    out.append("Keyboard Map Shift");
    out.append("\nExec=");
    out.append("keyboard_map_shift run");
    out.append("\nTerminal=false\nCategories=Utility;\n");
    out
}

} // verus!
