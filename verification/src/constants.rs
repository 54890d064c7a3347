//! The fixed names, paths and templates the desktop integrations use.
//!
//! Each group is a plain struct of string slices with a constructor whose
//! contract states every field's exact value.

use vstd::prelude::*;

verus! {

/// The GSettings paths of the GNOME custom keybinding.
pub struct GnomeKeybindingPaths {
    pub custom_keybinding_base: &'static str,
    pub media_keys_schema: &'static str,
    pub custom_keybinding_schema: &'static str,
}

/// The GSettings paths of the GNOME custom keybinding.
pub fn gnome_paths() -> (r: GnomeKeybindingPaths)
    ensures
        r.custom_keybinding_base@
            == "/org/gnome/settings-daemon/plugins/media-keys/custom-keybindings/keyboard-map-shift/"@,
        r.media_keys_schema@ == "org.gnome.settings-daemon.plugins.media-keys"@,
        r.custom_keybinding_schema@
            == "org.gnome.settings-daemon.plugins.media-keys.custom-keybinding"@,
{
    GnomeKeybindingPaths {
        custom_keybinding_base:
            "/org/gnome/settings-daemon/plugins/media-keys/custom-keybindings/keyboard-map-shift/",
        media_keys_schema: "org.gnome.settings-daemon.plugins.media-keys",
        custom_keybinding_schema: "org.gnome.settings-daemon.plugins.media-keys.custom-keybinding",
    }
}

/// The GSettings key names of the GNOME custom keybinding.
pub struct GnomeKeyNames {
    pub custom_keybindings_key: &'static str,
    pub kb_name_key: &'static str,
    pub kb_command_key: &'static str,
    pub kb_binding_key: &'static str,
}

/// The GSettings key names of the GNOME custom keybinding.
pub fn gnome_keys() -> (r: GnomeKeyNames)
    ensures
        r.custom_keybindings_key@ == "custom-keybindings"@,
        r.kb_name_key@ == "name"@,
        r.kb_command_key@ == "command"@,
        r.kb_binding_key@ == "binding"@,
{
    GnomeKeyNames {
        custom_keybindings_key: "custom-keybindings",
        kb_name_key: "name",
        kb_command_key: "command",
        kb_binding_key: "binding",
    }
}

/// The file paths of the KDE global-shortcut integration.
pub struct KdeKeybindingPaths {
    pub desktop_relative_path: &'static str,
    pub kglobalshortcuts_relative_path: &'static str,
    pub component_group: &'static str,
}

/// The file paths of the KDE global-shortcut integration.
pub fn kde_paths() -> (r: KdeKeybindingPaths)
    ensures
        r.desktop_relative_path@ == ".local/share/applications/keyboard_map_shift.desktop"@,
        r.kglobalshortcuts_relative_path@ == ".config/kglobalshortcutsrc"@,
        r.component_group@ == "keyboard_map_shift.desktop"@,
{
    KdeKeybindingPaths {
        desktop_relative_path: ".local/share/applications/keyboard_map_shift.desktop",
        kglobalshortcuts_relative_path: ".config/kglobalshortcutsrc",
        component_group: "keyboard_map_shift.desktop",
    }
}

/// The entry names of the KDE global-shortcut configuration.
pub struct KdeKeyNames {
    pub friendly_name_key: &'static str,
    pub trigger_key: &'static str,
}

/// The entry names of the KDE global-shortcut configuration.
pub fn kde_keys() -> (r: KdeKeyNames)
    ensures
        r.friendly_name_key@ == "_k_friendly_name"@,
        r.trigger_key@ == "Trigger"@,
{
    KdeKeyNames { friendly_name_key: "_k_friendly_name", trigger_key: "Trigger" }
}

/// The desktop-entry template the KDE integration writes.
pub struct KdeTemplates {
    pub desktop_entry_template: &'static str,
}

/// The desktop-entry template the KDE integration writes.
pub fn kde_templates() -> (r: KdeTemplates)
    ensures
        r.desktop_entry_template@
            == "[Desktop Entry]\nType=Application\nName={name}\nExec={exec}\nTerminal=false\nCategories=Utility;\n"@,
{
    KdeTemplates {
        desktop_entry_template:
            "[Desktop Entry]\nType=Application\nName={name}\nExec={exec}\nTerminal=false\nCategories=Utility;\n",
    }
}

/// The application's fixed strings.
pub struct AppStrings {
    pub app_name: &'static str,
    pub exec_run_cmd: &'static str,
    pub kde_component_dbus_path: &'static str,
    pub app_run_subcommand: &'static str,
}

/// The application's fixed strings.
pub fn app_strings() -> (r: AppStrings)
    ensures
        r.app_name@ == "Keyboard Map Shift"@,
        r.exec_run_cmd@ == "keyboard_map_shift run"@,
        r.kde_component_dbus_path@ == "/component/keyboard_map_shift.desktop"@,
        r.app_run_subcommand@ == "run"@,
{
    AppStrings {
        app_name: "Keyboard Map Shift",
        exec_run_cmd: "keyboard_map_shift run",
        kde_component_dbus_path: "/component/keyboard_map_shift.desktop",
        app_run_subcommand: "run",
    }
}

/// The paths of the Windows shortcut integration.
pub struct WindowsPaths {
    pub env_appdata: &'static str,
    pub start_menu_programs_rel: &'static str,
    pub shortcut_filename: &'static str,
}

/// The paths of the Windows shortcut integration.
pub fn windows_paths() -> (r: WindowsPaths)
    ensures
        r.env_appdata@ == "APPDATA"@,
        r.start_menu_programs_rel@ == "Microsoft\\Windows\\Start Menu\\Programs"@,
        r.shortcut_filename@ == "Keyboard Map Shift.lnk"@,
{
    WindowsPaths {
        env_appdata: "APPDATA",
        start_menu_programs_rel: "Microsoft\\Windows\\Start Menu\\Programs",
        shortcut_filename: "Keyboard Map Shift.lnk",
    }
}

} // verus!
