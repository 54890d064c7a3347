use keyboard_map_shift::inverse::invert_layout_map;
use keyboard_map_shift::remap::{
    coverage_score, direction_bonus, get_text_leyaout_map, is_rtl_char, match_layout, next_layout,
    reverse_text_direction, shift, shift_text_language, text_starts_rtl, ShiftError,
};
use keyboard_map_shift::{KeyboardDirection, KeyboardLayout, LayoutMap};

fn layout(label: &str, direction: KeyboardDirection, entries: &[(u16, &str)]) -> LayoutMap {
    let mut map: Vec<(u16, String)> = Vec::new();
    for (vk, glyph) in entries {
        map.push((*vk, (*glyph).to_string()));
    }
    LayoutMap {
        layout: KeyboardLayout {
            lang_name: label.to_string(),
            direction,
        },
        map,
    }
}

fn latin_a() -> LayoutMap {
    layout(
        "A",
        KeyboardDirection::LTR,
        &[(30, "a"), (31, "s")],
    )
}

fn cyrillic_b() -> LayoutMap {
    layout(
        "B",
        KeyboardDirection::LTR,
        &[(30, "ф"), (31, "ы")],
    )
}

#[test]
fn matching_selects_best_covering_layout() {
    let maps = vec![latin_a(), cyrillic_b()];
    let best = get_text_leyaout_map("фы", &maps).expect("expected a match");
    assert_eq!(best.layout.lang_name, "B");
    assert_eq!(match_layout("фы", &maps), Some(1));
}

#[test]
fn matching_scores_are_exact() {
    let inv_a = invert_layout_map(&latin_a());
    let inv_b = invert_layout_map(&cyrillic_b());
    assert_eq!(coverage_score("фы", &inv_a), (-2, 0));
    assert_eq!(coverage_score("фы", &inv_b), (4, 2));
    assert_eq!(direction_bonus(Some(false), KeyboardDirection::LTR), 3);
    assert_eq!(direction_bonus(Some(true), KeyboardDirection::RTL), 5);
    assert_eq!(direction_bonus(Some(true), KeyboardDirection::LTR), -2);
    assert_eq!(direction_bonus(None, KeyboardDirection::RTL), 0);
}

#[test]
fn coverage_grows_by_two_per_covered_character() {
    let inv = invert_layout_map(&cyrillic_b());
    let (one, m1) = coverage_score("ф", &inv);
    let (two, m2) = coverage_score("фы", &inv);
    assert_eq!(two, one + 2);
    assert_eq!(m2, m1 + 1);
}

#[test]
fn remap_translates_between_layouts() {
    let out = shift_text_language("фы", &cyrillic_b(), &latin_a());
    assert_eq!(out, "as");
}

#[test]
fn rotation_wraps_to_first_layout() {
    let maps = vec![latin_a(), cyrillic_b()];
    assert_eq!(next_layout(1, &maps), Some(0));
}

#[test]
fn rotation_is_a_self_cycle_with_one_layout() {
    let maps = vec![cyrillic_b()];
    assert_eq!(next_layout(0, &maps), Some(0));
    let out = shift("фы", &maps).expect("single-layout shift");
    assert_eq!(out, "фы");
}

#[test]
fn punctuation_only_text_is_undetermined() {
    let maps = vec![latin_a(), cyrillic_b()];
    assert_eq!(text_starts_rtl("."), None);
    assert_eq!(shift(".", &maps), Err(ShiftError::LayoutUndetermined));
}

#[test]
fn empty_text_and_empty_snapshot_are_undetermined() {
    let maps = vec![latin_a()];
    assert_eq!(shift("", &maps), Err(ShiftError::LayoutUndetermined));
    let none: Vec<LayoutMap> = Vec::new();
    assert_eq!(shift("фы", &none), Err(ShiftError::LayoutUndetermined));
}

#[test]
fn direction_flip_reverses_the_output() {
    assert_eq!(reverse_text_direction("abc"), "cba");
    let current = layout("L", KeyboardDirection::LTR, &[(1, "a"), (2, "b"), (3, "c")]);
    let target = layout("R", KeyboardDirection::RTL, &[(1, "a"), (2, "b"), (3, "c")]);
    assert_eq!(shift_text_language("abc", &current, &target), "cba");
}

#[test]
fn matching_is_deterministic() {
    let maps = vec![latin_a(), cyrillic_b()];
    let first = match_layout("фы s", &maps);
    for _ in 0..10 {
        assert_eq!(match_layout("фы s", &maps), first);
    }
}

#[test]
fn rtl_text_prefers_rtl_layout() {
    assert!(is_rtl_char('ש'));
    assert!(!is_rtl_char('a'));
    assert_eq!(text_starts_rtl("שלום"), Some(true));
    assert_eq!(text_starts_rtl("abc"), Some(false));
    assert_eq!(text_starts_rtl(" .!"), None);
    let latin = layout("A", KeyboardDirection::LTR, &[(30, "a")]);
    let hebrew = layout("H", KeyboardDirection::RTL, &[(30, "ש")]);
    let maps = vec![latin, hebrew];
    assert_eq!(match_layout("ש", &maps), Some(1));
}

#[test]
fn multi_character_glyphs_are_not_remapped() {
    let current = layout("D", KeyboardDirection::LTR, &[(5, "ab")]);
    let target = layout("A", KeyboardDirection::LTR, &[(5, "z")]);
    assert_eq!(shift_text_language("a", &current, &target), "a");
}

#[test]
fn first_forward_entry_wins_glyph_ties() {
    let current = layout("X", KeyboardDirection::LTR, &[(10, "x"), (11, "x")]);
    let target = layout("Y", KeyboardDirection::LTR, &[(10, "A"), (11, "B")]);
    assert_eq!(shift_text_language("x", &current, &target), "A");
}

#[test]
fn unmapped_characters_pass_through() {
    let out = shift_text_language("ф7ы!", &cyrillic_b(), &latin_a());
    assert_eq!(out, "a7s!");
}

#[test]
fn earliest_layout_wins_full_ties() {
    let first = layout("one", KeyboardDirection::LTR, &[(1, "q")]);
    let second = layout("two", KeyboardDirection::LTR, &[(2, "q")]);
    let maps = vec![first, second];
    assert_eq!(match_layout("q", &maps), Some(0));
}

#[test]
fn error_messages_match_the_failure() {
    assert_eq!(
        ShiftError::NoSelection.message(),
        "No text is currently highlighted"
    );
    assert_eq!(
        ShiftError::LayoutUndetermined.message(),
        "Could not determine the layout of the highlighted text"
    );
    assert_eq!(ShiftError::NoNextLayout.message(), "No next layout found");
    assert_eq!(
        ShiftError::InjectionFailed("boom".to_string()).message(),
        "boom"
    );
}

#[test]
fn remap_preserves_length_for_single_character_glyphs() {
    let out = shift_text_language("фы7!", &cyrillic_b(), &latin_a());
    assert_eq!(out.chars().count(), 4);
}

#[test]
fn multi_character_target_glyph_inserts_characters() {
    let current = layout("C", KeyboardDirection::LTR, &[(1, "a")]);
    let target = layout("T", KeyboardDirection::LTR, &[(1, "xy")]);
    assert_eq!(shift_text_language("a", &current, &target), "xy");
}

#[test]
fn shift_rotates_and_remaps() {
    let maps = vec![latin_a(), cyrillic_b()];
    assert_eq!(shift("фы", &maps).expect("shift"), "as");
    assert_eq!(shift("as", &maps).expect("shift"), "фы");
}
