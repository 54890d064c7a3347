//! The detection and remapping engine.
//!
//! Given a text and an ordered snapshot of installed layouts, the engine
//! scores every layout against the text, picks the best-explaining one,
//! chooses its cyclic successor, re-derives the text under that successor,
//! and reverses the character order when the two layouts write in opposite
//! directions.

use vstd::prelude::*;

use crate::chars::{
    char_is_ascii_punctuation, char_is_control, char_is_whitespace, push_char,
    spec_char_is_ascii_punctuation, spec_char_is_control, spec_char_is_whitespace,
};
use crate::inverse::{inverse_of, invert_layout_map, invert_layout_maps, InverseMap};
use crate::layout::{fwd_lookup, spec_fwd_lookup, KeyboardDirection, LayoutMap};

verus! {

/// Whether a character is strongly right-to-left: its Unicode Bidi_Class is
/// R or AL.
pub uninterp spec fn char_is_rtl(c: char) -> bool;

/// Relies on `unicode_bidi::bidi_class`: the Bidi_Class of a character is a
/// lookup in the Unicode character database, a function of the character
/// alone. The strongly right-to-left classes are `R` and `AL`.
#[verifier::external_body]
pub fn is_rtl_char(c: char) -> (r: bool)
    ensures
        r == char_is_rtl(c),
{
    matches!(
        unicode_bidi::bidi_class(c),
        unicode_bidi::BidiClass::R | unicode_bidi::BidiClass::AL
    )
}

/// The text's direction hint: the direction of the first character that is
/// neither whitespace nor ASCII punctuation (`Some(true)` right to left,
/// `Some(false)` left to right), or `None` when no such character exists.
pub open spec fn spec_dir_hint(t: Seq<char>) -> Option<bool>
    decreases t.len(),
{
    if t.len() == 0 {
        None
    } else if spec_char_is_whitespace(t.first()) || spec_char_is_ascii_punctuation(t.first()) {
        spec_dir_hint(t.drop_first())
    } else {
        Some(char_is_rtl(t.first()))
    }
}

/// Looks for the first character that is neither whitespace nor ASCII
/// punctuation and reports whether it is strongly right-to-left.
pub fn text_starts_rtl(text: &str) -> (r: Option<bool>)
    ensures
        r == spec_dir_hint(text@),
{
    proof {
        assert(text@.skip(0) =~= text@);
    }
    let n = text.unicode_len();
    let mut i: usize = 0;
    while i < n
        invariant
            n == text@.len(),
            i <= n,
            spec_dir_hint(text@) == spec_dir_hint(text@.skip(i as int)),
        decreases n - i,
    {
        proof {
            assert(text@.skip(i as int).first() == text@[i as int]);
            assert(text@.skip(i as int).drop_first() =~= text@.skip(i as int + 1));
        }
        let c = text.get_char(i);
        if char_is_whitespace(c) || char_is_ascii_punctuation(c) {
            i = i + 1;
        } else {
            return Some(is_rtl_char(c));
        }
    }
    proof {
        assert(text@.skip(n as int) =~= Seq::<char>::empty());
    }
    None
}

/// Direction bonus added to a layout's coverage score: a layout whose
/// direction agrees with the text's hint is rewarded, a disagreeing one is
/// penalized, and without a hint nothing changes.
pub open spec fn spec_direction_bonus(
    text_dir_is_rtl: Option<bool>,
    layout_dir: KeyboardDirection,
) -> int {
    match (text_dir_is_rtl, layout_dir) {
        (Some(true), KeyboardDirection::RTL) => 5,
        (Some(false), KeyboardDirection::LTR) => 3,
        (Some(true), KeyboardDirection::LTR) => -2,
        (Some(false), KeyboardDirection::RTL) => -2,
        (None, _) => 0,
    }
}

/// Bonus for a layout whose writing direction matches the text's hint.
pub fn direction_bonus(text_dir_is_rtl: Option<bool>, layout_dir: KeyboardDirection) -> (r: i32)
    ensures
        r == spec_direction_bonus(text_dir_is_rtl, layout_dir),
{
    match (text_dir_is_rtl, layout_dir) {
        (Some(true), KeyboardDirection::RTL) => 5,
        (Some(false), KeyboardDirection::LTR) => 3,
        (Some(true), KeyboardDirection::LTR) => -2,
        (Some(false), KeyboardDirection::RTL) => -2,
        (None, _) => 0,
    }
}

/// Coverage of a text by an inverse map: every non-control character adds
/// two to the score and one to the match count if the map covers it, and
/// subtracts one from the score otherwise; control characters are ignored.
pub open spec fn spec_coverage(t: Seq<char>, inv: Map<char, Seq<u16>>) -> (int, nat)
    decreases t.len(),
{
    if t.len() == 0 {
        (0, 0 as nat)
    } else {
        let prev = spec_coverage(t.drop_last(), inv);
        let c = t.last();
        if spec_char_is_control(c) {
            prev
        } else if inv.contains_key(c) {
            (prev.0 + 2, prev.1 + 1)
        } else {
            (prev.0 - 1, prev.1)
        }
    }
}

/// The coverage score lies between minus the text length and twice the text
/// length, and the match count never exceeds the text length.
pub proof fn lemma_coverage_bounds(t: Seq<char>, inv: Map<char, Seq<u16>>)
    ensures
        -(t.len() as int) <= spec_coverage(t, inv).0 <= 2 * t.len(),
        spec_coverage(t, inv).1 <= t.len(),
    decreases t.len(),
{
    if t.len() > 0 {
        lemma_coverage_bounds(t.drop_last(), inv);
    }
}

/// Coverage is monotone in character coverage: appending one non-control
/// character that the inverse map covers raises the layout's score by
/// exactly two and its match count by one.
pub proof fn lemma_coverage_score_monotonic(t: Seq<char>, inv: Map<char, Seq<u16>>, c: char)
    requires
        inv.contains_key(c),
        !spec_char_is_control(c),
    ensures
        spec_coverage(t.push(c), inv).0 == spec_coverage(t, inv).0 + 2,
        spec_coverage(t.push(c), inv).1 == spec_coverage(t, inv).1 + 1,
{
    assert(t.push(c).drop_last() =~= t);
}

/// Counts how well an inverse map explains the text: the coverage score and
/// the number of covered characters.
pub fn coverage_score(text: &str, inverse: &InverseMap) -> (r: (i32, usize))
    requires
        inverse.wf(),
        text@.len() <= 0x1000_0000,
    ensures
        r.0 == spec_coverage(text@, inverse@).0,
        r.1 == spec_coverage(text@, inverse@).1,
{
    proof {
        assert(text@.take(0) =~= Seq::<char>::empty());
    }
    let n = text.unicode_len();
    let mut score: i32 = 0;
    let mut matched: usize = 0;
    let mut i: usize = 0;
    while i < n
        invariant
            inverse.wf(),
            n == text@.len(),
            n <= 0x1000_0000,
            i <= n,
            score == spec_coverage(text@.take(i as int), inverse@).0,
            matched == spec_coverage(text@.take(i as int), inverse@).1,
        decreases n - i,
    {
        proof {
            assert(text@.take(i as int + 1).drop_last() =~= text@.take(i as int));
            assert(text@.take(i as int + 1).last() == text@[i as int]);
            lemma_coverage_bounds(text@.take(i as int), inverse@);
            lemma_coverage_bounds(text@.take(i as int + 1), inverse@);
        }
        let c = text.get_char(i);
        if !char_is_control(c) {
            if inverse.contains(c) {
                score = score + 2;
                matched = matched + 1;
            } else {
                score = score - 1;
            }
        }
        i = i + 1;
    }
    proof {
        assert(text@.take(n as int) =~= text@);
    }
    (score, matched)
}

/// The full score of one layout against the text: coverage plus direction
/// bonus.
pub open spec fn spec_layout_score(t: Seq<char>, lm: LayoutMap) -> int {
    spec_coverage(t, inverse_of(lm.fwd())).0 + spec_direction_bonus(
        spec_dir_hint(t),
        lm.layout.direction,
    )
}

/// The number of characters of the text that one layout covers.
pub open spec fn spec_layout_matches(t: Seq<char>, lm: LayoutMap) -> nat {
    spec_coverage(t, inverse_of(lm.fwd())).1
}

/// A candidate layout beats the running best only on a strictly greater
/// score, or an equal score with strictly more covered characters: the
/// earliest layout of the snapshot wins full ties.
pub open spec fn spec_better(t: Seq<char>, cand: LayoutMap, best: LayoutMap) -> bool {
    spec_layout_score(t, cand) > spec_layout_score(t, best) || (spec_layout_score(t, cand)
        == spec_layout_score(t, best) && spec_layout_matches(t, cand) > spec_layout_matches(
        t,
        best,
    ))
}

/// The best-scoring index among the first `k` layouts of the snapshot.
pub open spec fn spec_best_upto(t: Seq<char>, maps: Seq<LayoutMap>, k: int) -> Option<int>
    decreases k,
{
    if k <= 0 {
        None
    } else {
        match spec_best_upto(t, maps, k - 1) {
            None => Some(k - 1),
            Some(b) => if spec_better(t, maps[k - 1], maps[b]) {
                Some(k - 1)
            } else {
                Some(b)
            },
        }
    }
}

/// The index the matcher selects: the best-scoring layout, unless it covers
/// none of the text's characters, in which case the layout is undetermined.
pub open spec fn spec_match_index(t: Seq<char>, maps: Seq<LayoutMap>) -> Option<int> {
    match spec_best_upto(t, maps, maps.len() as int) {
        None => None,
        Some(b) => if spec_layout_matches(t, maps[b]) == 0 {
            None
        } else {
            Some(b)
        },
    }
}

proof fn lemma_best_upto_in_range(t: Seq<char>, maps: Seq<LayoutMap>, k: int)
    ensures
        spec_best_upto(t, maps, k) matches Some(b) ==> 0 <= b < k,
    decreases k,
{
    if k > 0 {
        lemma_best_upto_in_range(t, maps, k - 1);
    }
}

/// An index the matcher returns always lies inside the snapshot.
pub proof fn lemma_match_index_in_range(t: Seq<char>, maps: Seq<LayoutMap>)
    ensures
        spec_match_index(t, maps) matches Some(i) ==> 0 <= i < maps.len(),
{
    lemma_best_upto_in_range(t, maps, maps.len() as int);
}

/// The matcher is deterministic: its result is a function of the text and
/// the snapshot alone, so two runs on the same inputs return the same index.
pub proof fn lemma_match_layout_deterministic(
    t: Seq<char>,
    maps: Seq<LayoutMap>,
    r1: Option<int>,
    r2: Option<int>,
)
    requires
        r1 == spec_match_index(t, maps),
        r2 == spec_match_index(t, maps),
    ensures
        r1 == r2,
{
}

/// Scores every layout of the snapshot against the text and selects the
/// best-explaining one, or `None` when even the best layout covers none of
/// the text's characters.
pub fn match_layout(text: &str, layout_maps: &Vec<LayoutMap>) -> (r: Option<usize>)
    requires
        text@.len() <= 0x1000_0000,
    ensures
        match r {
            Some(i) => spec_match_index(text@, layout_maps@) == Some(i as int),
            None => spec_match_index(text@, layout_maps@) is None,
        },
{
    let text_dir = text_starts_rtl(text);
    let inverses = invert_layout_maps(layout_maps);
    let mut best_idx: Option<usize> = None;
    let mut best_score: i32 = 0;
    let mut best_matches: usize = 0;
    let mut idx: usize = 0;
    while idx < layout_maps.len()
        invariant
            text@.len() <= 0x1000_0000,
            text_dir == spec_dir_hint(text@),
            inverses@.len() == layout_maps@.len(),
            forall|k: int|
                0 <= k < inverses@.len() ==> (#[trigger] inverses@[k])@ == inverse_of(
                    layout_maps@[k].fwd(),
                ) && inverses@[k].wf(),
            idx <= layout_maps@.len(),
            best_idx is None ==> idx == 0,
            spec_best_upto(text@, layout_maps@, idx as int) == match best_idx {
                Some(b) => Some(b as int),
                None => None::<int>,
            },
            best_idx matches Some(b) ==> b < idx && best_score == spec_layout_score(
                text@,
                layout_maps@[b as int],
            ) && best_matches == spec_layout_matches(text@, layout_maps@[b as int]),
        decreases layout_maps@.len() - idx,
    {
        let lm = &layout_maps[idx];
        let (cov, matched) = coverage_score(text, &inverses[idx]);
        proof {
            lemma_coverage_bounds(text@, inverses@[idx as int]@);
        }
        let score = cov + direction_bonus(text_dir, lm.layout.direction);
        let replace = match best_idx {
            None => true,
            Some(_) => score > best_score || (score == best_score && matched > best_matches),
        };
        if replace {
            best_idx = Some(idx);
            best_score = score;
            best_matches = matched;
        }
        idx = idx + 1;
    }
    match best_idx {
        None => None,
        Some(b) => {
            if best_matches == 0 {
                None
            } else {
                Some(b)
            }
        },
    }
}

/// Returns the layout that best explains the text, or `None` when the
/// layout is undetermined.
pub fn get_text_leyaout_map<'a>(text: &str, layout_maps: &'a Vec<LayoutMap>) -> (r: Option<
    &'a LayoutMap,
>)
    requires
        text@.len() <= 0x1000_0000,
    ensures
        match r {
            Some(lm) => spec_match_index(text@, layout_maps@) matches Some(i) && *lm
                == layout_maps@[i],
            None => spec_match_index(text@, layout_maps@) is None,
        },
{
    proof {
        lemma_match_index_in_range(text@, layout_maps@);
    }
    match match_layout(text, layout_maps) {
        Some(i) => Some(&layout_maps[i]),
        None => None,
    }
}

/// The remapping of one character: the glyph the target layout assigns to
/// the first key-code producing the character under the current layout, or
/// the character itself when no key-code or no non-empty glyph exists.
pub open spec fn spec_remap_char(
    c: char,
    inv: Map<char, Seq<u16>>,
    tgt: Seq<(u16, Seq<char>)>,
) -> Seq<char> {
    if inv.contains_key(c) && inv[c].len() > 0 {
        match spec_fwd_lookup(tgt, inv[c][0]) {
            Some(g) => if g.len() > 0 {
                g
            } else {
                seq![c]
            },
            None => seq![c],
        }
    } else {
        seq![c]
    }
}

/// The remapping of a whole text, character by character.
pub open spec fn spec_remap_text(
    t: Seq<char>,
    inv: Map<char, Seq<u16>>,
    tgt: Seq<(u16, Seq<char>)>,
) -> Seq<char>
    decreases t.len(),
{
    if t.len() == 0 {
        Seq::empty()
    } else {
        spec_remap_char(t.first(), inv, tgt) + spec_remap_text(t.drop_first(), inv, tgt)
    }
}

proof fn lemma_remap_text_push(
    t: Seq<char>,
    c: char,
    inv: Map<char, Seq<u16>>,
    tgt: Seq<(u16, Seq<char>)>,
)
    ensures
        spec_remap_text(t.push(c), inv, tgt) == spec_remap_text(t, inv, tgt) + spec_remap_char(
            c,
            inv,
            tgt,
        ),
    decreases t.len(),
{
    if t.len() == 0 {
        let e = spec_remap_char(c, inv, tgt);
        assert(t.push(c).first() == c);
        assert(t.push(c).drop_first() =~= Seq::<char>::empty());
        assert(spec_remap_text(Seq::<char>::empty(), inv, tgt) == Seq::<char>::empty());
        assert(spec_remap_text(t.push(c), inv, tgt) == e + Seq::<char>::empty());
        assert(t =~= Seq::<char>::empty());
        assert(e + Seq::<char>::empty() =~= spec_remap_text(t, inv, tgt) + e);
    } else {
        lemma_remap_text_push(t.drop_first(), c, inv, tgt);
        let a = spec_remap_char(t.first(), inv, tgt);
        let b = spec_remap_text(t.drop_first(), inv, tgt);
        let e = spec_remap_char(c, inv, tgt);
        assert(t.push(c).first() == t.first());
        assert(t.push(c).drop_first() =~= t.drop_first().push(c));
        assert(spec_remap_text(t.push(c), inv, tgt) == a + spec_remap_text(
            t.push(c).drop_first(),
            inv,
            tgt,
        ));
        assert(spec_remap_text(t.push(c).drop_first(), inv, tgt) == b + e);
        assert(a + (b + e) =~= (a + b) + e);
    }
}

proof fn lemma_fwd_lookup_is_entry(fwd: Seq<(u16, Seq<char>)>, vk: u16)
    ensures
        spec_fwd_lookup(fwd, vk) matches Some(g) ==> exists|k: int|
            0 <= k < fwd.len() && (#[trigger] fwd[k]).1 == g,
    decreases fwd.len(),
{
    if fwd.len() > 0 {
        lemma_fwd_lookup_is_entry(fwd.drop_first(), vk);
        if fwd.first().0 == vk {
            assert(fwd[0].1 == fwd.first().1);
        } else {
            match spec_fwd_lookup(fwd.drop_first(), vk) {
                Some(g) => {
                    let k = choose|k: int|
                        0 <= k < fwd.drop_first().len() && (#[trigger] fwd.drop_first()[k]).1 == g;
                    assert(fwd[k + 1].1 == g);
                },
                None => {},
            }
        }
    }
}

/// Remapping substitutes one-to-one: when every glyph of the target's
/// forward table is a single character, the output has exactly as many
/// characters as the input. (A multi-character glyph in the target is the
/// one case that inserts characters.)
pub proof fn lemma_remap_preserves_length(
    t: Seq<char>,
    inv: Map<char, Seq<u16>>,
    tgt: Seq<(u16, Seq<char>)>,
)
    requires
        forall|k: int| 0 <= k < tgt.len() ==> (#[trigger] tgt[k]).1.len() == 1,
    ensures
        spec_remap_text(t, inv, tgt).len() == t.len(),
    decreases t.len(),
{
    if t.len() > 0 {
        lemma_remap_preserves_length(t.drop_first(), inv, tgt);
        lemma_fwd_lookup_is_entry(tgt, if inv.contains_key(t.first()) && inv[t.first()].len() > 0 {
            inv[t.first()][0]
        } else {
            0
        });
        assert(spec_remap_char(t.first(), inv, tgt).len() == 1);
    }
}

/// The whole transformation of the text from the current to the target
/// layout: character-by-character remapping, then a reversal of the
/// character order when the two layouts write in opposite directions.
pub open spec fn spec_shift_text(t: Seq<char>, cur: LayoutMap, tgt: LayoutMap) -> Seq<char> {
    let out = spec_remap_text(t, inverse_of(cur.fwd()), tgt.fwd());
    if cur.layout.direction != tgt.layout.direction {
        out.reverse()
    } else {
        out
    }
}

/// Reverses the character order of the text: the simplified direction
/// correction applied when source and target directions differ.
pub fn reverse_text_direction(text: &str) -> (r: String)
    ensures
        r@ == text@.reverse(),
{
    let n = text.unicode_len();
    let mut out = String::new();
    let mut i: usize = 0;
    proof {
        assert(text@.skip(n as int).reverse() =~= Seq::<char>::empty());
    }
    while i < n
        invariant
            n == text@.len(),
            i <= n,
            out@ == text@.skip((n - i) as int).reverse(),
        decreases n - i,
    {
        let c = text.get_char(n - 1 - i);
        push_char(&mut out, c);
        i = i + 1;
        proof {
            assert(out@ =~= text@.skip((n - i) as int).reverse());
        }
    }
    proof {
        assert(text@.skip(0) =~= text@);
    }
    out
}

/// Re-derives the text under the target layout: each character is traced
/// back to the first key-code producing it under the current layout and
/// replaced by the target layout's glyph for that key-code; characters the
/// current layout does not explain, and key-codes the target does not map
/// to a non-empty glyph, pass through unchanged. When the two layouts write
/// in opposite directions the result is reversed.
pub fn shift_text_language(text: &str, current_layout: &LayoutMap, target_layout: &LayoutMap) -> (r:
    String)
    ensures
        r@ == spec_shift_text(text@, *current_layout, *target_layout),
{
    let ghost inv_spec = inverse_of(current_layout.fwd());
    let ghost tgt = target_layout.fwd();
    let inv = invert_layout_map(current_layout);
    let n = text.unicode_len();
    let mut out = String::new();
    let mut i: usize = 0;
    proof {
        assert(text@.take(0) =~= Seq::<char>::empty());
    }
    while i < n
        invariant
            n == text@.len(),
            i <= n,
            inv@ == inv_spec,
            inv.wf(),
            tgt == target_layout.fwd(),
            out@ == spec_remap_text(text@.take(i as int), inv_spec, tgt),
        decreases n - i,
    {
        proof {
            assert(text@.take(i as int + 1) =~= text@.take(i as int).push(text@[i as int]));
            lemma_remap_text_push(text@.take(i as int), text@[i as int], inv_spec, tgt);
        }
        let c = text.get_char(i);
        let mut replaced = false;
        match inv.first_code(c) {
            Some(vk) => {
                match fwd_lookup(&target_layout.map, vk) {
                    Some(g) => {
                        if !g.as_str().is_empty() {
                            out.append(g.as_str());
                            replaced = true;
                        }
                    },
                    None => {},
                }
            },
            None => {},
        }
        if !replaced {
            push_char(&mut out, c);
            proof {
                assert(out@ =~= spec_remap_text(text@.take(i as int), inv_spec, tgt) + seq![
                    text@[i as int],
                ]);
            }
        }
        i = i + 1;
    }
    proof {
        assert(text@.take(n as int) =~= text@);
    }
    if current_layout.layout.direction != target_layout.layout.direction {
        reverse_text_direction(out.as_str())
    } else {
        out
    }
}

/// The failures of one shift operation.
#[derive(Debug, Clone, PartialEq, Eq)]
pub enum ShiftError {
    /// No text is currently selected.
    NoSelection,
    /// No layout covers any character of the text.
    LayoutUndetermined,
    /// The snapshot holds no layout to rotate to.
    NoNextLayout,
    /// The collaborator replacing the selection failed, with its reason.
    InjectionFailed(String),
}

impl ShiftError {
    /// The user-visible message of this failure.
    pub fn message(&self) -> (r: String)
        ensures
            match self {
                ShiftError::NoSelection => r@ == "No text is currently highlighted"@,
                ShiftError::LayoutUndetermined => r@
                    == "Could not determine the layout of the highlighted text"@,
                ShiftError::NoNextLayout => r@ == "No next layout found"@,
                ShiftError::InjectionFailed(reason) => r@ == reason@,
            },
    {
        match self {
            ShiftError::NoSelection => String::from_str("No text is currently highlighted"),
            ShiftError::LayoutUndetermined => String::from_str(
                "Could not determine the layout of the highlighted text",
            ),
            ShiftError::NoNextLayout => String::from_str("No next layout found"),
            ShiftError::InjectionFailed(reason) => reason.clone(),
        }
    }
}

/// The cyclic successor of the matched layout in the snapshot: the next
/// index, wrapping to the first layout after the last; with a single layout
/// the successor is the layout itself, and an empty snapshot has none.
pub open spec fn spec_next_layout(matched: int, n: int) -> Option<int> {
    if n <= 0 {
        None
    } else {
        Some((matched + 1) % n)
    }
}

/// With exactly one layout in the snapshot, the next layout after the
/// matched one is the matched layout itself: the rotation is a self-cycle.
pub proof fn lemma_next_layout_self_cycle(matched: int, n: int)
    requires
        n == 1,
        0 <= matched < n,
    ensures
        spec_next_layout(matched, n) == Some(matched),
{
}

/// The index of the layout following `matched_index` in cyclic snapshot
/// order, or `None` for an empty snapshot.
pub fn next_layout(matched_index: usize, layout_maps: &Vec<LayoutMap>) -> (r: Option<usize>)
    requires
        matched_index < layout_maps@.len() || layout_maps@.len() == 0,
    ensures
        match r {
            Some(i) => spec_next_layout(matched_index as int, layout_maps@.len() as int) == Some(
                i as int,
            ),
            None => layout_maps@.len() == 0,
        },
{
    let n = layout_maps.len();
    if n == 0 {
        None
    } else {
        Some((matched_index + 1) % n)
    }
}

/// One whole shift: match the layout, pick the cyclic successor, re-derive
/// the text under it, and correct the direction. Fails with
/// `LayoutUndetermined` when no layout covers any character of the text;
/// on a successful match the result is always produced.
pub fn shift(text: &str, layout_maps: &Vec<LayoutMap>) -> (r: Result<String, ShiftError>)
    requires
        text@.len() <= 0x1000_0000,
    ensures
        ({
            let m = spec_match_index(text@, layout_maps@);
            match m {
                None => r == Err::<String, ShiftError>(ShiftError::LayoutUndetermined),
                Some(i) => {
                    let next = (i + 1) % (layout_maps@.len() as int);
                    &&& r matches Ok(out)
                    &&& out@ == spec_shift_text(text@, layout_maps@[i], layout_maps@[next])
                },
            }
        }),
{
    proof {
        lemma_match_index_in_range(text@, layout_maps@);
    }
    match match_layout(text, layout_maps) {
        None => Err(ShiftError::LayoutUndetermined),
        Some(i) => {
            match next_layout(i, layout_maps) {
                None => Err(ShiftError::NoNextLayout),
                Some(j) => Ok(shift_text_language(text, &layout_maps[i], &layout_maps[j])),
            }
        },
    }
}

} // verus!
