use keyboard_map_shift::binder::LinuxBinder;
use keyboard_map_shift::config::{Config, DEFAULT_HOTKEY_DISPLAY};
use keyboard_map_shift::constants::{
    app_strings, gnome_keys, gnome_paths, kde_keys, kde_paths, kde_templates, windows_paths,
};

#[test]
fn defaults_match_constant() {
    let cfg = Config::with_defaults();
    assert_eq!(cfg.hotkey, DEFAULT_HOTKEY_DISPLAY);
}

#[test]
fn gnome_constants_non_empty() {
    assert!(!gnome_paths().custom_keybinding_base.is_empty());
    assert!(!gnome_paths().media_keys_schema.is_empty());
    assert!(!gnome_paths().custom_keybinding_schema.is_empty());
    assert!(!gnome_keys().custom_keybindings_key.is_empty());
    assert!(!gnome_keys().kb_name_key.is_empty());
    assert!(!gnome_keys().kb_command_key.is_empty());
    assert!(!gnome_keys().kb_binding_key.is_empty());
}

#[test]
fn kde_constants_and_template() {
    assert!(!kde_paths().desktop_relative_path.is_empty());
    assert!(!kde_paths().kglobalshortcuts_relative_path.is_empty());
    assert!(!kde_paths().component_group.is_empty());
    assert!(!kde_keys().friendly_name_key.is_empty());
    assert!(!kde_keys().trigger_key.is_empty());

    let filled = kde_templates()
        .desktop_entry_template
        .replace("{name}", app_strings().app_name)
        .replace("{exec}", app_strings().exec_run_cmd);
    assert!(filled.contains("Name="));
    assert!(filled.contains("Exec="));
}

#[test]
fn windows_constants_non_empty() {
    assert!(!windows_paths().env_appdata.is_empty());
    assert!(!windows_paths().start_menu_programs_rel.is_empty());
    assert!(!windows_paths().shortcut_filename.is_empty());
}

#[test]
fn remove_hotkey_is_ok() {
    let binder = LinuxBinder::new();
    let result = binder.remove_hotkey();
    assert!(result.is_ok());
}
