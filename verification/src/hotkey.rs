//! Parsing and rendering of hotkey descriptions such as `Ctrl+Alt+K`.
//!
//! A display string is a `+`-separated list of segments. Each segment,
//! trimmed and ASCII-lower-cased, is a modifier (`ctrl`/`control`, `alt`,
//! `shift`) or a single ASCII key character; anything else is rejected.

use vstd::prelude::*;

use crate::chars::{
    chars_string, join_chars, lower_ascii_vec, push_char, spec_join, spec_lower_ascii_seq,
    spec_split, spec_to_upper_ascii, spec_trim, split_chars, str_chars, str_eq_chars,
    to_upper_ascii, trim_chars,
};

verus! {

/// A parsed hotkey: the three modifier flags and the key character.
#[derive(Debug, Clone, Copy, PartialEq, Eq, Structural)]
pub struct ParsedHotkey {
    pub ctrl: bool,
    pub alt: bool,
    pub shift: bool,
    pub key: char,
}

/// A segment in canonical form: trimmed and ASCII-lower-cased.
pub open spec fn spec_canon_part(p: Seq<char>) -> Seq<char> {
    spec_lower_ascii_seq(spec_trim(p))
}

/// A segment naming the control modifier.
pub open spec fn spec_part_is_ctrl(p: Seq<char>) -> bool {
    spec_canon_part(p) == "ctrl"@ || spec_canon_part(p) == "control"@
}

/// A segment naming the alt modifier.
pub open spec fn spec_part_is_alt(p: Seq<char>) -> bool {
    spec_canon_part(p) == "alt"@
}

/// A segment naming the shift modifier.
pub open spec fn spec_part_is_shift(p: Seq<char>) -> bool {
    spec_canon_part(p) == "shift"@
}

/// A segment naming a key: a single ASCII character.
pub open spec fn spec_part_is_key(p: Seq<char>) -> bool {
    let l = spec_canon_part(p);
    l.len() == 1 && (l[0] as u32) < 0x80
}

/// The key character a key segment denotes, upper-cased.
pub open spec fn spec_part_key_char(p: Seq<char>) -> char {
    spec_to_upper_ascii(spec_canon_part(p)[0])
}

/// A segment the parser accepts.
pub open spec fn spec_part_valid(p: Seq<char>) -> bool {
    spec_part_is_ctrl(p) || spec_part_is_alt(p) || spec_part_is_shift(p) || spec_part_is_key(p)
}

/// The position of the first segment the parser rejects, or the number of
/// segments when it accepts them all.
pub open spec fn spec_first_invalid(parts: Seq<Seq<char>>) -> int
    decreases parts.len(),
{
    if parts.len() == 0 {
        0
    } else if !spec_part_valid(parts.first()) {
        0
    } else {
        1 + spec_first_invalid(parts.drop_first())
    }
}

/// Whether a key segment occurs among the first `i` segments.
pub open spec fn spec_has_key_upto(parts: Seq<Seq<char>>, i: int) -> bool
    decreases i,
{
    if i <= 0 {
        false
    } else if spec_part_is_key(parts[i - 1]) {
        true
    } else {
        spec_has_key_upto(parts, i - 1)
    }
}

/// The key character of the last key segment among the first `i` segments
/// (the later segment wins), or the null character when none occurs.
pub open spec fn spec_key_char_upto(parts: Seq<Seq<char>>, i: int) -> char
    decreases i,
{
    if i <= 0 {
        '\0'
    } else if spec_part_is_key(parts[i - 1]) {
        spec_part_key_char(parts[i - 1])
    } else {
        spec_key_char_upto(parts, i - 1)
    }
}

/// Whether the parser accepts the whole display string: every segment is
/// valid and at least one names a key.
pub open spec fn spec_parse_ok(s: Seq<char>) -> bool {
    let parts = spec_split(s, '+');
    spec_first_invalid(parts) == parts.len() && spec_has_key_upto(parts, parts.len() as int)
}

/// The hotkey an accepted display string denotes: a modifier is set when
/// any segment names it, and the key is that of the last key segment.
pub open spec fn spec_parsed_hotkey(s: Seq<char>) -> ParsedHotkey {
    let parts = spec_split(s, '+');
    ParsedHotkey {
        ctrl: exists|k: int| 0 <= k < parts.len() && spec_part_is_ctrl(#[trigger] parts[k]),
        alt: exists|k: int| 0 <= k < parts.len() && spec_part_is_alt(#[trigger] parts[k]),
        shift: exists|k: int| 0 <= k < parts.len() && spec_part_is_shift(#[trigger] parts[k]),
        key: spec_key_char_upto(parts, parts.len() as int),
    }
}

/// The message of a rejected display string: the first rejected segment,
/// or the missing key when every segment is a modifier.
pub open spec fn spec_parse_err_msg(s: Seq<char>) -> Seq<char> {
    let parts = spec_split(s, '+');
    if spec_first_invalid(parts) < parts.len() {
        "Unsupported key segment: "@ + parts[spec_first_invalid(parts)]
    } else {
        "Missing key in hotkey"@
    }
}

proof fn lemma_first_invalid_at(parts: Seq<Seq<char>>, i: int)
    requires
        0 <= i <= parts.len(),
        forall|k: int| 0 <= k < i ==> spec_part_valid(#[trigger] parts[k]),
        i < parts.len() ==> !spec_part_valid(parts[i]),
    ensures
        spec_first_invalid(parts) == i,
    decreases i,
{
    if i == 0 {
    } else {
        assert(spec_part_valid(parts[0]));
        lemma_first_invalid_at(parts.drop_first(), i - 1);
    }
}

/// Parses a display string into its modifiers and key. Accepts the string
/// exactly when every `+`-separated segment is a modifier or a single
/// ASCII key character and at least one segment is a key; the rejected
/// segment, or the missing key, names the error.
pub fn parse_display(display: &str) -> (r: Result<ParsedHotkey, String>)
    ensures
        match r {
            Ok(hk) => spec_parse_ok(display@) && hk == spec_parsed_hotkey(display@),
            Err(e) => !spec_parse_ok(display@) && e@ == spec_parse_err_msg(display@),
        },
{
    proof {
        reveal_strlit("ctrl");
        reveal_strlit("control");
        reveal_strlit("alt");
        reveal_strlit("shift");
    }
    let ghost parts_spec = spec_split(display@, '+');
    let chars = str_chars(display);
    let parts = split_chars(&chars, '+');
    let mut ctrl = false;
    let mut alt = false;
    let mut shift = false;
    let mut key: Option<char> = None;
    let mut i: usize = 0;
    while i < parts.len()
        invariant
            parts@.map_values(|x: Vec<char>| x@) == parts_spec,
            parts_spec == spec_split(display@, '+'),
            parts_spec.len() == parts@.len(),
            i <= parts@.len(),
            forall|k: int| 0 <= k < i ==> spec_part_valid(#[trigger] parts_spec[k]),
            ctrl == exists|k: int| 0 <= k < i && spec_part_is_ctrl(#[trigger] parts_spec[k]),
            alt == exists|k: int| 0 <= k < i && spec_part_is_alt(#[trigger] parts_spec[k]),
            shift == exists|k: int| 0 <= k < i && spec_part_is_shift(#[trigger] parts_spec[k]),
            key is Some <==> spec_has_key_upto(parts_spec, i as int),
            key matches Some(c) ==> c == spec_key_char_upto(parts_spec, i as int),
        decreases parts@.len() - i,
    {
        let ghost pi = parts_spec[i as int];
        proof {
            reveal_strlit("ctrl");
            reveal_strlit("control");
            reveal_strlit("alt");
            reveal_strlit("shift");
            assert(parts@.map_values(|x: Vec<char>| x@)[i as int] == parts@[i as int]@);
        }
        let t = trim_chars(&parts[i]);
        let l = lower_ascii_vec(&t);
        proof {
            assert(l@ == spec_canon_part(pi));
        }
        let is_c = str_eq_chars(&l, "ctrl") || str_eq_chars(&l, "control");
        let is_a = str_eq_chars(&l, "alt");
        let is_s = str_eq_chars(&l, "shift");
        let is_k = l.len() == 1 && (l[0] as u32) < 0x80;
        proof {
            assert(is_c == spec_part_is_ctrl(pi));
            assert(is_a == spec_part_is_alt(pi));
            assert(is_s == spec_part_is_shift(pi));
            assert(is_k == spec_part_is_key(pi));
        }
        if is_c {
            ctrl = true;
        } else if is_a {
            alt = true;
        } else if is_s {
            shift = true;
        } else if is_k {
            key = Some(to_upper_ascii(l[0]));
        } else {
            proof {
                lemma_first_invalid_at(parts_spec, i as int);
            }
            let mut msg = String::from_str("Unsupported key segment: ");
            let part_str = chars_string(&parts[i]);
            msg.append(part_str.as_str());
            return Err(msg);
        }
        i = i + 1;
    }
    proof {
        lemma_first_invalid_at(parts_spec, parts_spec.len() as int);
    }
    match key {
        Some(c) => Ok(ParsedHotkey { ctrl, alt, shift, key: c }),
        None => Err(String::from_str("Missing key in hotkey")),
    }
}

/// The canonical form of one segment: a modifier word in its canonical
/// capitalization, everything else ASCII-lower-cased with the first
/// character ASCII-upper-cased.
pub open spec fn spec_normalize_part(p: Seq<char>) -> Seq<char> {
    let l = spec_lower_ascii_seq(p);
    if l == "ctrl"@ || l == "control"@ {
        "Ctrl"@
    } else if l == "alt"@ {
        "Alt"@
    } else if l == "shift"@ {
        "Shift"@
    } else if l.len() == 0 {
        l
    } else {
        seq![spec_to_upper_ascii(l.first())] + l.drop_first()
    }
}

/// The canonical form of a whole display string: every `+`-separated
/// segment trimmed and canonicalized, re-joined with `+`.
pub open spec fn spec_normalize_display(s: Seq<char>) -> Seq<char> {
    spec_join(
        spec_split(s, '+').map_values(|p: Seq<char>| spec_normalize_part(spec_trim(p))),
        '+',
    )
}

/// Canonicalizes one trimmed segment.
fn normalize_part_chars(p: &Vec<char>) -> (r: Vec<char>)
    ensures
        r@ == spec_normalize_part(p@),
{
    let l = lower_ascii_vec(p);
    if str_eq_chars(&l, "ctrl") || str_eq_chars(&l, "control") {
        str_chars("Ctrl")
    } else if str_eq_chars(&l, "alt") {
        str_chars("Alt")
    } else if str_eq_chars(&l, "shift") {
        str_chars("Shift")
    } else if l.len() == 0 {
        l
    } else {
        let c0 = to_upper_ascii(l[0]);
        let ghost pre = l@;
        let mut out = l;
        out.set(0, c0);
        proof {
            assert(out@ =~= seq![spec_to_upper_ascii(pre.first())] + pre.drop_first());
        }
        out
    }
}

/// Brings a display string to canonical form: segments are trimmed,
/// modifier words get their canonical capitalization, and every other
/// segment is lower-cased with its first character upper-cased.
pub fn normalize_display(input: &str) -> (r: String)
    ensures
        r@ == spec_normalize_display(input@),
{
    let ghost parts_spec = spec_split(input@, '+');
    let chars = str_chars(input);
    let parts = split_chars(&chars, '+');
    let mut normd: Vec<Vec<char>> = Vec::new();
    let mut i: usize = 0;
    while i < parts.len()
        invariant
            parts@.map_values(|x: Vec<char>| x@) == parts_spec,
            parts_spec.len() == parts@.len(),
            i <= parts@.len(),
            normd@.len() == i,
            forall|k: int|
                0 <= k < i ==> (#[trigger] normd@[k])@ == spec_normalize_part(
                    spec_trim(parts_spec[k]),
                ),
        decreases parts@.len() - i,
    {
        proof {
            assert(parts@.map_values(|x: Vec<char>| x@)[i as int] == parts@[i as int]@);
        }
        let t = trim_chars(&parts[i]);
        normd.push(normalize_part_chars(&t));
        i = i + 1;
    }
    proof {
        assert(normd@.map_values(|x: Vec<char>| x@) =~= parts_spec.map_values(
            |p: Seq<char>| spec_normalize_part(spec_trim(p)),
        ));
    }
    let joined = join_chars(&normd, '+');
    chars_string(&joined)
}

/// The GNOME rendering of a hotkey: the modifier tags in fixed order,
/// then the key character.
pub open spec fn spec_gnome_binding(hk: ParsedHotkey) -> Seq<char> {
    (if hk.ctrl {
        "<Control>"@
    } else {
        Seq::<char>::empty()
    }) + (if hk.alt {
        "<Alt>"@
    } else {
        Seq::<char>::empty()
    }) + (if hk.shift {
        "<Shift>"@
    } else {
        Seq::<char>::empty()
    }) + seq![hk.key]
}

/// Renders a hotkey in the form GNOME custom keybindings use.
pub fn to_gnome_binding(hk: &ParsedHotkey) -> (r: String)
    ensures
        r@ == spec_gnome_binding(*hk),
{
    let mut s = String::new();
    if hk.ctrl {
        s.append("<Control>");
    }
    if hk.alt {
        s.append("<Alt>");
    }
    if hk.shift {
        s.append("<Shift>");
    }
    push_char(&mut s, hk.key);
    proof {
        assert(s@ =~= spec_gnome_binding(*hk));
    }
    s
}

/// Parses a display string and renders it for GNOME.
pub fn to_gnome_binding_from_display(display: &str) -> (r: Result<String, String>)
    ensures
        match r {
            Ok(s) => spec_parse_ok(display@) && s@ == spec_gnome_binding(
                spec_parsed_hotkey(display@),
            ),
            Err(e) => !spec_parse_ok(display@) && e@ == spec_parse_err_msg(display@),
        },
{
    match parse_display(display) {
        Ok(hk) => Ok(to_gnome_binding(&hk)),
        Err(e) => Err(e),
    }
}

/// The modifier bits of the Windows hotkey word: shift is one, control
/// two, alt four.
pub open spec fn spec_windows_mods(hk: ParsedHotkey) -> int {
    (if hk.shift {
        1int
    } else {
        0int
    }) + (if hk.ctrl {
        2int
    } else {
        0int
    }) + (if hk.alt {
        4int
    } else {
        0int
    })
}

/// The Windows hotkey word: the modifier bits in the high byte, the key's
/// low byte in the low byte.
pub open spec fn spec_windows_word(hk: ParsedHotkey) -> int {
    spec_windows_mods(hk) * 256 + (hk.key as u8)
}

/// Encodes a hotkey as the 16-bit word Windows shell links use.
pub fn to_windows_hotkey_word(hk: &ParsedHotkey) -> (r: u16)
    ensures
        r == spec_windows_word(*hk),
{
    let vk: u8 = hk.key as u8;
    let mods: u16 = (if hk.shift {
        1
    } else {
        0
    }) + (if hk.ctrl {
        2
    } else {
        0
    }) + (if hk.alt {
        4
    } else {
        0
    });
    mods * 256 + (vk as u16)
}

/// Parses a display string and encodes it as a Windows hotkey word.
pub fn to_windows_hotkey_word_from_display(display: &str) -> (r: Result<u16, String>)
    ensures
        match r {
            Ok(w) => spec_parse_ok(display@) && w == spec_windows_word(
                spec_parsed_hotkey(display@),
            ),
            Err(e) => !spec_parse_ok(display@) && e@ == spec_parse_err_msg(display@),
        },
{
    match parse_display(display) {
        Ok(hk) => Ok(to_windows_hotkey_word(&hk)),
        Err(e) => Err(e),
    }
}

} // verus!
