use keyboard_map_shift::hotkey::{
    normalize_display, parse_display, to_gnome_binding_from_display,
    to_windows_hotkey_word_from_display,
};
use keyboard_map_shift::HotkeySpec;

#[test]
fn normalize_display_variants() {
    assert_eq!(normalize_display("ctrl+alt+k"), "Ctrl+Alt+K");
    assert_eq!(normalize_display("Shift + a"), "Shift+A");
}

#[test]
fn normalize_display_capitalizes_words() {
    assert_eq!(normalize_display("control + K"), "Ctrl+K");
    assert_eq!(normalize_display("foo + K"), "Foo+K");
    assert_eq!(normalize_display("SHIFT+F"), "Shift+F");
}

#[test]
fn parse_display_ok() {
    let hk = parse_display("Ctrl+Alt+K").unwrap();
    assert!(hk.ctrl);
    assert!(hk.alt);
    assert!(!hk.shift);
    assert_eq!(hk.key, 'K');
}

#[test]
#[should_panic]
fn parse_display_err_panics_on_unwrap() {
    let _ = parse_display("Meta+K").unwrap();
}

#[test]
fn parse_display_reports_the_bad_segment() {
    assert_eq!(
        parse_display("Meta+K"),
        Err("Unsupported key segment: Meta".to_string())
    );
    assert_eq!(
        parse_display("Ctrl+Alt"),
        Err("Missing key in hotkey".to_string())
    );
}

#[test]
fn parse_display_takes_the_last_key() {
    let hk = parse_display("Ctrl+a+b").unwrap();
    assert!(hk.ctrl);
    assert_eq!(hk.key, 'B');
}

#[test]
fn gnome_binding_from_display() {
    let s = to_gnome_binding_from_display("Ctrl+Alt+K").unwrap();
    assert_eq!(s, "<Control><Alt>K");
}

#[test]
fn windows_hotkey_word_from_display() {
    let w = to_windows_hotkey_word_from_display("Ctrl+Alt+K").unwrap();
    assert_eq!(w, 0x064B);
}

#[test]
fn windows_hotkey_word_encodes_shift() {
    let w = to_windows_hotkey_word_from_display("Shift+A").unwrap();
    assert_eq!(w, 0x0141);
}

#[test]
fn hotkey_spec_normalizes_its_display() {
    let spec = HotkeySpec::from_display("  ctrl+alt+k ").unwrap();
    assert_eq!(spec.display, "Ctrl+Alt+K");
}

#[test]
fn hotkey_spec_rejects_empty_input() {
    assert_eq!(
        HotkeySpec::from_display("   "),
        Err("Hotkey cannot be empty".to_string())
    );
}
