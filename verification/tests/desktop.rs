use keyboard_map_shift::chars::normalize_newlines;
use keyboard_map_shift::desktop::{classify_desktop, desktop_file_contents, DesktopEnvironment};

#[test]
fn desktop_classification_reads_both_identifiers() {
    assert_eq!(
        classify_desktop("GNOME", ""),
        DesktopEnvironment::Gnome
    );
    assert_eq!(
        classify_desktop("ubuntu:GNOME", "whatever"),
        DesktopEnvironment::Gnome
    );
    assert_eq!(
        classify_desktop("KDE", ""),
        DesktopEnvironment::Kde
    );
    assert_eq!(
        classify_desktop("X-Cinnamon", "plasma"),
        DesktopEnvironment::Kde
    );
    assert_eq!(
        classify_desktop("unknown-desktop", "unknown-session"),
        DesktopEnvironment::Unknown
    );
}

#[test]
fn desktop_file_holds_name_and_exec() {
    let contents = desktop_file_contents();
    assert!(contents.contains("Name=Keyboard Map Shift"));
    assert!(contents.contains("Exec=keyboard_map_shift run"));
    assert!(contents.starts_with("[Desktop Entry]"));
}

#[test]
fn newline_normalization_collapses_crlf() {
    assert_eq!(normalize_newlines("a\r\nb\r\n"), "a\nb\n");
    assert_eq!(normalize_newlines("plain\ntext\r"), "plain\ntext\r");
    assert_eq!(normalize_newlines(""), "");
}
