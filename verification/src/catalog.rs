//! Derives the snapshot of layout maps from the raw per-layout key tables
//! the operating system reports.
//!
//! Enumerating layouts and reading their key tables is platform work
//! outside the library; everything computed from those tables — a layout's
//! writing direction, its display name, and the cleaned key-code-to-glyph
//! table — is derived and proved here.

use vstd::prelude::*;

use crate::chars::{
    chars_eq, chars_string, find_char2, join_chars_sep, lower_ascii_vec, slice_chars,
    spec_dec_digits, spec_first_sep2, spec_join_sep, spec_lower_ascii_seq, spec_split,
    spec_starts_with, split_chars, starts_with_chars, str_chars, usize_to_string,
};
use crate::layout::{spec_fwd, KeyboardDirection, KeyboardLayout, LayoutMap};

verus! {

/// What the operating system reports for one installed layout: its name
/// and its raw key-code-to-glyph pairs.
#[derive(Debug, Clone)]
pub struct RawLayout {
    pub name: String,
    pub keys: Vec<(u16, String)>,
}

/// A character in one of the Unicode ranges holding right-to-left scripts:
/// the Hebrew-through-Arabic blocks and the presentation-form blocks.
pub open spec fn spec_rtl_range_char(c: char) -> bool {
    let u = c as u32;
    (0x0590 <= u && u <= 0x08FF) || (0xFB1D <= u && u <= 0xFDFF) || (0xFE70 <= u && u <= 0xFEFF)
}

/// Whether `c` lies in a right-to-left script range.
pub fn rtl_range_char(c: char) -> (r: bool)
    ensures
        r == spec_rtl_range_char(c),
{
    let u = c as u32;
    (0x0590 <= u && u <= 0x08FF) || (0xFB1D <= u && u <= 0xFDFF) || (0xFE70 <= u && u <= 0xFEFF)
}

/// Whether any key of the table produces a glyph whose first character
/// lies in a right-to-left script range.
pub open spec fn spec_keys_have_rtl(keys: Seq<(u16, Seq<char>)>) -> bool {
    exists|k: int|
        0 <= k < keys.len() && (#[trigger] keys[k]).1.len() > 0 && spec_rtl_range_char(
            keys[k].1[0],
        )
}

/// The direction of a layout: right-to-left as soon as any key produces a
/// glyph starting with a right-to-left-range character.
pub open spec fn spec_direction_of(keys: Seq<(u16, Seq<char>)>) -> KeyboardDirection {
    if spec_keys_have_rtl(keys) {
        KeyboardDirection::RTL
    } else {
        KeyboardDirection::LTR
    }
}

/// Scans a key table for a right-to-left glyph to decide the layout's
/// writing direction.
pub fn direction_from_keys(keys: &Vec<(u16, String)>) -> (r: KeyboardDirection)
    ensures
        r == spec_direction_of(spec_fwd(keys@)),
{
    let ghost fwd = spec_fwd(keys@);
    let mut i: usize = 0;
    while i < keys.len()
        invariant
            i <= keys@.len(),
            fwd == spec_fwd(keys@),
            fwd.len() == keys@.len(),
            forall|k: int|
                0 <= k < i ==> !((#[trigger] fwd[k]).1.len() > 0 && spec_rtl_range_char(
                    fwd[k].1[0],
                )),
        decreases keys@.len() - i,
    {
        proof {
            assert(fwd[i as int] == (keys@[i as int].0, keys@[i as int].1@));
        }
        let glyph: &String = &keys[i].1;
        if !glyph.as_str().is_empty() {
            if rtl_range_char(glyph.as_str().get_char(0)) {
                return KeyboardDirection::RTL;
            }
        }
        i = i + 1;
    }
    KeyboardDirection::LTR
}

/// The display name of a layout: the name the system reports, or the
/// layout's index in decimal when that name is empty.
pub open spec fn spec_layout_name(name: Seq<char>, idx: nat) -> Seq<char> {
    if name.len() == 0 {
        spec_dec_digits(idx)
    } else {
        name
    }
}

/// The layout at `index` of the raw snapshot: its reported name (or the
/// index in decimal when that is empty) and the direction derived from its
/// key table. `None` when the index lies outside the snapshot.
pub fn get_layout(index: usize, raw: &Vec<RawLayout>) -> (r: Option<KeyboardLayout>)
    ensures
        match r {
            Some(kl) => index < raw@.len() && kl.direction == spec_direction_of(
                spec_fwd(raw@[index as int].keys@),
            ) && kl.lang_name@ == spec_layout_name(raw@[index as int].name@, index as nat),
            None => index >= raw@.len(),
        },
{
    if index >= raw.len() {
        return None;
    }
    let entry = &raw[index];
    let lang_name = if entry.name.as_str().is_empty() {
        usize_to_string(index)
    } else {
        entry.name.clone()
    };
    let direction = direction_from_keys(&entry.keys);
    Some(KeyboardLayout { lang_name, direction })
}

/// The layouts of the raw snapshot, in order; an empty snapshot reports a
/// single left-to-right layout named `current`.
pub fn list_layouts(raw: &Vec<RawLayout>) -> (r: Vec<KeyboardLayout>)
    ensures
        raw@.len() == 0 ==> r@.len() == 1 && r@[0].lang_name@ == "current"@ && r@[0].direction
            == KeyboardDirection::LTR,
        raw@.len() > 0 ==> r@.len() == raw@.len() && forall|k: int|
            0 <= k < raw@.len() ==> (#[trigger] r@[k]).direction == spec_direction_of(
                spec_fwd(raw@[k].keys@),
            ) && r@[k].lang_name@ == spec_layout_name(raw@[k].name@, k as nat),
{
    let mut r: Vec<KeyboardLayout> = Vec::new();
    if raw.len() == 0 {
        r.push(
            KeyboardLayout {
                lang_name: String::from_str("current"),
                direction: KeyboardDirection::LTR,
            },
        );
        return r;
    }
    let mut i: usize = 0;
    while i < raw.len()
        invariant
            i <= raw@.len(),
            r@.len() == i,
            forall|k: int|
                0 <= k < i ==> (#[trigger] r@[k]).direction == spec_direction_of(
                    spec_fwd(raw@[k].keys@),
                ) && r@[k].lang_name@ == spec_layout_name(raw@[k].name@, k as nat),
        decreases raw@.len() - i,
    {
        match get_layout(i, raw) {
            Some(kl) => r.push(kl),
            None => (),
        }
        i = i + 1;
    }
    r
}

/// Whether some entry of the table carries the key-code `vk`.
pub open spec fn spec_has_key(s: Seq<(u16, String)>, vk: u16) -> bool {
    exists|k: int| 0 <= k < s.len() && (#[trigger] s[k]).0 == vk
}

/// The raw key table cleaned for use as a forward table: entries with an
/// empty glyph are dropped, and of several entries with one key-code only
/// the first is kept.
pub open spec fn spec_clean_keys(keys: Seq<(u16, String)>) -> Seq<(u16, String)>
    decreases keys.len(),
{
    if keys.len() == 0 {
        Seq::empty()
    } else {
        let prev = spec_clean_keys(keys.drop_last());
        let e = keys.last();
        if e.1@.len() > 0 && !spec_has_key(prev, e.0) {
            prev.push(e)
        } else {
            prev
        }
    }
}

fn has_key(map: &Vec<(u16, String)>, vk: u16) -> (r: bool)
    ensures
        r == spec_has_key(map@, vk),
{
    let mut i: usize = 0;
    while i < map.len()
        invariant
            i <= map@.len(),
            forall|k: int| 0 <= k < i ==> (#[trigger] map@[k]).0 != vk,
        decreases map@.len() - i,
    {
        if map[i].0 == vk {
            return true;
        }
        i = i + 1;
    }
    false
}

/// The layout map at `index` of the raw snapshot: the layout as
/// `get_layout` reports it and the cleaned key table. Outside the snapshot
/// the map is empty and the layout a left-to-right fallback named by the
/// index.
pub fn vk_to_char_map_for_layout(index: usize, raw: &Vec<RawLayout>) -> (r: LayoutMap)
    ensures
        r.wf(),
        index < raw@.len() ==> r.map@ == spec_clean_keys(raw@[index as int].keys@)
            && r.layout.direction == spec_direction_of(spec_fwd(raw@[index as int].keys@))
            && r.layout.lang_name@ == spec_layout_name(raw@[index as int].name@, index as nat),
        index >= raw@.len() ==> r.map@ == Seq::<(u16, String)>::empty() && r.layout.direction
            == KeyboardDirection::LTR && r.layout.lang_name@ == spec_dec_digits(index as nat),
{
    match get_layout(index, raw) {
        Some(layout) => {
            let entry = &raw[index];
            let mut map: Vec<(u16, String)> = Vec::new();
            let mut i: usize = 0;
            while i < entry.keys.len()
                invariant
                    i <= entry.keys@.len(),
                    map@ == spec_clean_keys(entry.keys@.take(i as int)),
                    forall|a: int, b: int|
                        0 <= a < b < map@.len() ==> (#[trigger] map@[a]).0 != (
                        #[trigger] map@[b]).0,
                decreases entry.keys@.len() - i,
            {
                proof {
                    assert(entry.keys@.take(i as int + 1).drop_last() =~= entry.keys@.take(
                        i as int,
                    ));
                    assert(entry.keys@.take(i as int + 1).last() == entry.keys@[i as int]);
                }
                let glyph: &String = &entry.keys[i].1;
                let vk = entry.keys[i].0;
                if !glyph.as_str().is_empty() && !has_key(&map, vk) {
                    map.push((vk, glyph.clone()));
                }
                i = i + 1;
            }
            proof {
                assert(entry.keys@.take(entry.keys@.len() as int) =~= entry.keys@);
            }
            LayoutMap { layout, map }
        },
        None => {
            let layout = KeyboardLayout {
                lang_name: usize_to_string(index),
                direction: KeyboardDirection::LTR,
            };
            LayoutMap { layout, map: Vec::new() }
        },
    }
}

/// The layout map of the first layout of the snapshot.
pub fn vk_to_char_map_default(raw: &Vec<RawLayout>) -> (r: LayoutMap)
    ensures
        r.wf(),
        raw@.len() > 0 ==> r.map@ == spec_clean_keys(raw@[0].keys@) && r.layout.direction
            == spec_direction_of(spec_fwd(raw@[0].keys@)) && r.layout.lang_name@
            == spec_layout_name(raw@[0].name@, 0),
        raw@.len() == 0 ==> r.map@ == Seq::<(u16, String)>::empty() && r.layout.direction
            == KeyboardDirection::LTR && r.layout.lang_name@ == spec_dec_digits(0),
{
    vk_to_char_map_for_layout(0, raw)
}

/// The whole snapshot of layout maps, one per installed layout in snapshot
/// order; an empty raw snapshot yields the single fallback map.
pub fn all_layout_vk_maps(raw: &Vec<RawLayout>) -> (r: Vec<LayoutMap>)
    ensures
        raw@.len() == 0 ==> r@.len() == 1 && r@[0].map@ == Seq::<(u16, String)>::empty()
            && r@[0].layout.direction == KeyboardDirection::LTR && r@[0].layout.lang_name@
            == spec_dec_digits(0) && r@[0].wf(),
        raw@.len() > 0 ==> r@.len() == raw@.len() && forall|k: int|
            0 <= k < raw@.len() ==> (#[trigger] r@[k]).map@ == spec_clean_keys(raw@[k].keys@)
                && r@[k].layout.direction == spec_direction_of(spec_fwd(raw@[k].keys@))
                && r@[k].layout.lang_name@ == spec_layout_name(raw@[k].name@, k as nat)
                && r@[k].wf(),
{
    let mut r: Vec<LayoutMap> = Vec::new();
    if raw.len() == 0 {
        r.push(vk_to_char_map_for_layout(0, raw));
        return r;
    }
    let mut i: usize = 0;
    while i < raw.len()
        invariant
            i <= raw@.len(),
            r@.len() == i,
            forall|k: int|
                0 <= k < i ==> (#[trigger] r@[k]).map@ == spec_clean_keys(raw@[k].keys@)
                    && r@[k].layout.direction == spec_direction_of(spec_fwd(raw@[k].keys@))
                    && r@[k].layout.lang_name@ == spec_layout_name(raw@[k].name@, k as nat)
                    && r@[k].wf(),
        decreases raw@.len() - i,
    {
        r.push(vk_to_char_map_for_layout(i, raw));
        i = i + 1;
    }
    r
}

/// The country code one line of the installed-locale listing contributes:
/// the part between the first underscore-or-dot separator and the second,
/// ASCII-lower-cased. The `C` and `POSIX` locales, and lines without a
/// separator, contribute none.
pub open spec fn spec_locale_country(line: Seq<char>) -> Option<Seq<char>> {
    if (line.len() > 0 && line[0] == 'C') || spec_starts_with(line, "POSIX"@) {
        None
    } else {
        let i = spec_first_sep2(line, '_', '.');
        if i >= line.len() {
            None
        } else {
            let rest = line.skip(i as int + 1);
            let j = spec_first_sep2(rest, '_', '.');
            if j >= rest.len() {
                Some(spec_lower_ascii_seq(rest))
            } else {
                Some(spec_lower_ascii_seq(rest.take(j as int)))
            }
        }
    }
}

/// The country codes the first `i` lines of the locale listing contribute,
/// in order.
pub open spec fn spec_active_countries(lines: Seq<Seq<char>>, i: int) -> Seq<Seq<char>>
    decreases i,
{
    if i <= 0 {
        Seq::empty()
    } else {
        let prev = spec_active_countries(lines, i - 1);
        match spec_locale_country(lines[i - 1]) {
            Some(c) => prev.push(c),
            None => prev,
        }
    }
}

/// Whether `x` occurs in the list.
pub open spec fn spec_name_list_contains(list: Seq<Seq<char>>, x: Seq<char>) -> bool {
    exists|k: int| 0 <= k < list.len() && #[trigger] list[k] == x
}

/// The first `i` registry names whose ASCII-lower-cased form is one of the
/// country codes, in registry order.
pub open spec fn spec_matching_names(
    names: Seq<Seq<char>>,
    countries: Seq<Seq<char>>,
    i: int,
) -> Seq<Seq<char>>
    decreases i,
{
    if i <= 0 {
        Seq::empty()
    } else {
        let prev = spec_matching_names(names, countries, i - 1);
        if spec_name_list_contains(countries, spec_lower_ascii_seq(names[i - 1])) {
            prev.push(names[i - 1])
        } else {
            prev
        }
    }
}

/// The layout names the locale listing selects from the registry, joined
/// with a comma and a space.
pub open spec fn spec_locale_layout_names(installed: Seq<char>, names: Seq<Seq<char>>) -> Seq<
    char,
> {
    let lines = spec_split(installed, '\n');
    let countries = spec_active_countries(lines, lines.len() as int);
    spec_join_sep(spec_matching_names(names, countries, names.len() as int), ", "@)
}

fn name_list_contains(list: &Vec<Vec<char>>, x: &Vec<char>) -> (r: bool)
    ensures
        r == spec_name_list_contains(list@.map_values(|v: Vec<char>| v@), x@),
{
    let ghost views = list@.map_values(|v: Vec<char>| v@);
    let mut i: usize = 0;
    while i < list.len()
        invariant
            views == list@.map_values(|v: Vec<char>| v@),
            views.len() == list@.len(),
            i <= list@.len(),
            forall|k: int| 0 <= k < i ==> #[trigger] views[k] != x@,
        decreases list@.len() - i,
    {
        proof {
            assert(views[i as int] == list@[i as int]@);
        }
        if chars_eq(&list[i], x) {
            return true;
        }
        i = i + 1;
    }
    false
}

/// Selects from the registry's layout names those whose name is a country
/// of some installed locale, and joins them with a comma and a space: the
/// layout list a keymap is compiled from.
pub fn get_locale_layout_and_variant_strs(
    installed_locales: &str,
    registry_names: &Vec<String>,
) -> (r: String)
    ensures
        r@ == spec_locale_layout_names(
            installed_locales@,
            registry_names@.map_values(|s: String| s@),
        ),
{
    let chars = str_chars(installed_locales);
    let lines = split_chars(&chars, '\n');
    let ghost lines_spec = spec_split(installed_locales@, '\n');
    let mut countries: Vec<Vec<char>> = Vec::new();
    let mut i: usize = 0;
    proof {
        assert(countries@.map_values(|v: Vec<char>| v@) =~= spec_active_countries(lines_spec, 0));
    }
    while i < lines.len()
        invariant
            lines@.map_values(|x: Vec<char>| x@) == lines_spec,
            lines_spec.len() == lines@.len(),
            i <= lines@.len(),
            countries@.map_values(|v: Vec<char>| v@) == spec_active_countries(
                lines_spec,
                i as int,
            ),
        decreases lines@.len() - i,
    {
        proof {
            assert(lines@.map_values(|x: Vec<char>| x@)[i as int] == lines@[i as int]@);
        }
        let line = &lines[i];
        let ghost pre = countries@.map_values(|v: Vec<char>| v@);
        let is_c = line.len() > 0 && line[0] == 'C';
        if !is_c && !starts_with_chars(line, "POSIX") {
            let isep = find_char2(line, '_', '.');
            if isep < line.len() {
                let rest = slice_chars(line, isep + 1, line.len());
                proof {
                    assert(rest@ =~= lines_spec[i as int].skip(isep as int + 1));
                }
                let j = find_char2(&rest, '_', '.');
                let part = if j < rest.len() {
                    slice_chars(&rest, 0, j)
                } else {
                    rest
                };
                countries.push(lower_ascii_vec(&part));
                proof {
                    assert(countries@.map_values(|v: Vec<char>| v@) =~= pre.push(
                        countries@.last()@,
                    ));
                }
            }
        }
        i = i + 1;
    }
    let ghost names_spec = registry_names@.map_values(|s: String| s@);
    let ghost countries_spec = countries@.map_values(|v: Vec<char>| v@);
    let mut matching: Vec<Vec<char>> = Vec::new();
    let mut k: usize = 0;
    proof {
        assert(matching@.map_values(|v: Vec<char>| v@) =~= spec_matching_names(
            names_spec,
            countries_spec,
            0,
        ));
    }
    while k < registry_names.len()
        invariant
            names_spec == registry_names@.map_values(|s: String| s@),
            names_spec.len() == registry_names@.len(),
            countries_spec == countries@.map_values(|v: Vec<char>| v@),
            k <= registry_names@.len(),
            matching@.map_values(|v: Vec<char>| v@) == spec_matching_names(
                names_spec,
                countries_spec,
                k as int,
            ),
        decreases registry_names@.len() - k,
    {
        proof {
            assert(names_spec[k as int] == registry_names@[k as int]@);
        }
        let ghost pre = matching@.map_values(|v: Vec<char>| v@);
        let name = str_chars(registry_names[k].as_str());
        let lowered = lower_ascii_vec(&name);
        if name_list_contains(&countries, &lowered) {
            matching.push(name);
            proof {
                assert(matching@.map_values(|v: Vec<char>| v@) =~= pre.push(matching@.last()@));
            }
        }
        k = k + 1;
    }
    let joined = join_chars_sep(&matching, ", ");
    chars_string(&joined)
}

/// Whether a Windows language identifier names a right-to-left language:
/// its primary-language bits match one of the right-to-left languages.
pub open spec fn spec_windows_langid_is_rtl(langid: u16) -> bool {
    let primary = langid % 0x400;
    primary == 0x01 || primary == 0x0D || primary == 0x29 || primary == 0x20 || primary == 0x5A
        || primary == 0x65 || primary == 0x63 || primary == 0x3D || primary == 0x92
}

/// Whether a Windows language identifier names a right-to-left language.
pub fn windows_langid_is_rtl(langid: u16) -> (r: bool)
    ensures
        r == spec_windows_langid_is_rtl(langid),
{
    let primary = langid % 0x400;
    primary == 0x01 || primary == 0x0D || primary == 0x29 || primary == 0x20 || primary == 0x5A
        || primary == 0x65 || primary == 0x63 || primary == 0x3D || primary == 0x92
}

/// The layout a Windows keyboard-layout handle denotes: named by its
/// position, with the direction of the handle's language identifier (the
/// handle's low sixteen bits).
pub fn keyboard_layout_from_hkl(hkl: usize, idx: usize) -> (r: KeyboardLayout)
    ensures
        r.lang_name@ == spec_dec_digits(idx as nat),
        r.direction == if spec_windows_langid_is_rtl((hkl % 0x10000) as u16) {
            KeyboardDirection::RTL
        } else {
            KeyboardDirection::LTR
        },
{
    let langid: u16 = (hkl % 0x10000) as u16;
    let direction = if windows_langid_is_rtl(langid) {
        KeyboardDirection::RTL
    } else {
        KeyboardDirection::LTR
    };
    KeyboardLayout { lang_name: usize_to_string(idx), direction }
}

} // verus!
