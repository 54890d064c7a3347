use keyboard_map_shift::ini::{ini_set, parse_ini, render_ini};

#[test]
fn parse_and_render_keep_groups_in_order() {
    let data = parse_ini("[one]\na=1\nb = 2\n\n# comment\n[two]\nc=3\n");
    assert_eq!(render_ini(&data), "[one]\na=1\nb=2\n[two]\nc=3\n");
}

#[test]
fn ini_set_overwrites_in_place() {
    let mut data = parse_ini("[g]\nx=1\ny=2\n");
    ini_set(&mut data, "g", "x", "9");
    assert_eq!(render_ini(&data), "[g]\nx=9\ny=2\n");
}

#[test]
fn ini_set_appends_new_groups_and_keys() {
    let mut data = parse_ini("");
    ini_set(
        &mut data,
        "keyboard_map_shift.desktop",
        "Trigger",
        "Ctrl+Alt+K,none,Trigger",
    );
    assert_eq!(
        render_ini(&data),
        "[keyboard_map_shift.desktop]\nTrigger=Ctrl+Alt+K,none,Trigger\n"
    );
}

#[test]
fn parser_skips_comments_and_orphan_keys() {
    let data = parse_ini("orphan=1\n; note\n[g]\nk=v\n");
    assert_eq!(render_ini(&data), "[g]\nk=v\n");
}

#[test]
fn duplicate_group_headers_merge() {
    let data = parse_ini("[g]\na=1\n[h]\nb=2\n[g]\nc=3\n");
    assert_eq!(render_ini(&data), "[g]\na=1\nc=3\n[h]\nb=2\n");
}

#[test]
fn windows_line_endings_are_trimmed() {
    let data = parse_ini("[g]\r\nk = v \r\n");
    assert_eq!(render_ini(&data), "[g]\nk=v\n");
}
