use keyboard_map_shift::catalog::{
    all_layout_vk_maps, get_layout, get_locale_layout_and_variant_strs, keyboard_layout_from_hkl,
    list_layouts, vk_to_char_map_default, vk_to_char_map_for_layout, windows_langid_is_rtl,
    RawLayout,
};
use keyboard_map_shift::chars::usize_to_string;
use keyboard_map_shift::KeyboardDirection;

fn raw(name: &str, entries: &[(u16, &str)]) -> RawLayout {
    let mut keys: Vec<(u16, String)> = Vec::new();
    for (vk, glyph) in entries {
        keys.push((*vk, (*glyph).to_string()));
    }
    RawLayout {
        name: name.to_string(),
        keys,
    }
}

#[test]
fn decimal_rendering_is_exact() {
    assert_eq!(usize_to_string(0), "0");
    assert_eq!(usize_to_string(10), "10");
    assert_eq!(usize_to_string(987), "987");
}

#[test]
fn get_layout_names_and_directions() {
    let raws = vec![raw("us", &[(30, "a")]), raw("", &[(30, "ש")])];
    let first = get_layout(0, &raws).unwrap();
    assert_eq!(first.lang_name, "us");
    assert_eq!(first.direction, KeyboardDirection::LTR);
    let second = get_layout(1, &raws).unwrap();
    assert_eq!(second.lang_name, "1");
    assert_eq!(second.direction, KeyboardDirection::RTL);
    assert!(get_layout(2, &raws).is_none());
}

#[test]
fn list_layouts_falls_back_to_current() {
    let empty: Vec<RawLayout> = Vec::new();
    let listed = list_layouts(&empty);
    assert_eq!(listed.len(), 1);
    assert_eq!(listed[0].lang_name, "current");
    assert_eq!(listed[0].direction, KeyboardDirection::LTR);

    let raws = vec![raw("us", &[(30, "a")]), raw("il", &[(30, "ש")])];
    let listed = list_layouts(&raws);
    assert_eq!(listed.len(), 2);
    assert_eq!(listed[0].lang_name, "us");
    assert_eq!(listed[1].lang_name, "il");
}

#[test]
fn key_tables_are_cleaned() {
    let raws = vec![raw("us", &[(1, "a"), (1, "b"), (2, ""), (3, "c")])];
    let map = vk_to_char_map_for_layout(0, &raws);
    assert_eq!(
        map.map,
        vec![(1u16, "a".to_string()), (3u16, "c".to_string())]
    );
    let def = vk_to_char_map_default(&raws);
    assert_eq!(def.map, map.map);
}

#[test]
fn out_of_range_map_is_an_empty_fallback() {
    let raws = vec![raw("us", &[(1, "a")])];
    let map = vk_to_char_map_for_layout(7, &raws);
    assert_eq!(map.layout.lang_name, "7");
    assert_eq!(map.layout.direction, KeyboardDirection::LTR);
    assert!(map.map.is_empty());
}

#[test]
fn snapshot_covers_every_layout() {
    let raws = vec![raw("us", &[(30, "a")]), raw("il", &[(30, "ש")])];
    let maps = all_layout_vk_maps(&raws);
    assert_eq!(maps.len(), 2);
    assert_eq!(maps[0].layout.lang_name, "us");
    assert_eq!(maps[0].layout.direction, KeyboardDirection::LTR);
    assert_eq!(maps[1].layout.lang_name, "il");
    assert_eq!(maps[1].layout.direction, KeyboardDirection::RTL);

    let empty: Vec<RawLayout> = Vec::new();
    let fallback = all_layout_vk_maps(&empty);
    assert_eq!(fallback.len(), 1);
    assert_eq!(fallback[0].layout.lang_name, "0");
    assert!(fallback[0].map.is_empty());
}

#[test]
fn locale_listing_selects_registry_names() {
    let installed = "C\nC.UTF-8\nPOSIX\nen_US.utf8\nde_DE.utf8\nhe_IL.utf8\n";
    let names = vec![
        "us".to_string(),
        "fr".to_string(),
        "il".to_string(),
        "de".to_string(),
    ];
    assert_eq!(
        get_locale_layout_and_variant_strs(installed, &names),
        "us, il, de"
    );
    assert_eq!(get_locale_layout_and_variant_strs("", &names), "");
}

#[test]
fn windows_langids_classify_directions() {
    assert!(windows_langid_is_rtl(0x0401));
    assert!(windows_langid_is_rtl(0x040D));
    assert!(!windows_langid_is_rtl(0x0409));

    let hebrew = keyboard_layout_from_hkl(0x040D, 0);
    assert_eq!(hebrew.lang_name, "0");
    assert_eq!(hebrew.direction, KeyboardDirection::RTL);
    let english = keyboard_layout_from_hkl(0xF0090409, 3);
    assert_eq!(english.lang_name, "3");
    assert_eq!(english.direction, KeyboardDirection::LTR);
}
