//! Character classification and small string-building helpers.
//!
//! The classification functions carry exact specifications: each executable
//! function is proved to agree with a spec function that lists the code
//! points of the class it recognizes.

use vstd::prelude::*;

verus! {

/// A character with the Unicode `White_Space` property.
pub open spec fn spec_char_is_whitespace(c: char) -> bool {
    let u = c as u32;
    (0x09 <= u && u <= 0x0D) || u == 0x20 || u == 0x85 || u == 0xA0 || u == 0x1680 || (0x2000 <= u
        && u <= 0x200A) || u == 0x2028 || u == 0x2029 || u == 0x202F || u == 0x205F || u == 0x3000
}

/// Whether `c` is whitespace (the Unicode `White_Space` code points).
pub fn char_is_whitespace(c: char) -> (r: bool)
    ensures
        r == spec_char_is_whitespace(c),
{
    let u = c as u32;
    (0x09 <= u && u <= 0x0D) || u == 0x20 || u == 0x85 || u == 0xA0 || u == 0x1680 || (0x2000 <= u
        && u <= 0x200A) || u == 0x2028 || u == 0x2029 || u == 0x202F || u == 0x205F || u == 0x3000
}

/// An ASCII punctuation character: one of the four ASCII ranges between
/// the digits, letters and the ends of the printable range.
pub open spec fn spec_char_is_ascii_punctuation(c: char) -> bool {
    let u = c as u32;
    (0x21 <= u && u <= 0x2F) || (0x3A <= u && u <= 0x40) || (0x5B <= u && u <= 0x60) || (0x7B <= u
        && u <= 0x7E)
}

/// Whether `c` is ASCII punctuation.
pub fn char_is_ascii_punctuation(c: char) -> (r: bool)
    ensures
        r == spec_char_is_ascii_punctuation(c),
{
    let u = c as u32;
    (0x21 <= u && u <= 0x2F) || (0x3A <= u && u <= 0x40) || (0x5B <= u && u <= 0x60) || (0x7B <= u
        && u <= 0x7E)
}

/// A control character: the Unicode `Cc` general category.
pub open spec fn spec_char_is_control(c: char) -> bool {
    let u = c as u32;
    u <= 0x1F || (0x7F <= u && u <= 0x9F)
}

/// Whether `c` is a control character.
pub fn char_is_control(c: char) -> (r: bool)
    ensures
        r == spec_char_is_control(c),
{
    let u = c as u32;
    u <= 0x1F || (0x7F <= u && u <= 0x9F)
}

/// The character with code point `u`, for code points in the ASCII range.
pub fn ascii_char(u: u32) -> (c: char)
    requires
        u < 0x80,
    ensures
        c == (u as char),
        c as u32 == u,
{
    let b = u as u8;
    assert(u as u8 == u) by (bit_vector)
        requires
            u < 0x80,
    ;
    let c = b as char;
    proof {
        vstd::utf8::char_u32_cast(c, u);
    }
    c
}

/// ASCII upper-casing of one character: `a..z` map to `A..Z`, everything
/// else is unchanged.
pub open spec fn spec_to_upper_ascii(c: char) -> char {
    if 0x61 <= c as u32 && c as u32 <= 0x7A {
        (c as u32 - 32) as char
    } else {
        c
    }
}

/// ASCII lower-casing of one character: `A..Z` map to `a..z`, everything
/// else is unchanged.
pub open spec fn spec_to_lower_ascii(c: char) -> char {
    if 0x41 <= c as u32 && c as u32 <= 0x5A {
        (c as u32 + 32) as char
    } else {
        c
    }
}

/// Upper-cases an ASCII letter, leaving every other character unchanged.
pub fn to_upper_ascii(c: char) -> (r: char)
    ensures
        r == spec_to_upper_ascii(c),
{
    let u = c as u32;
    if 0x61 <= u && u <= 0x7A {
        ascii_char(u - 32)
    } else {
        c
    }
}

/// Lower-cases an ASCII letter, leaving every other character unchanged.
pub fn to_lower_ascii(c: char) -> (r: char)
    ensures
        r == spec_to_lower_ascii(c),
{
    let u = c as u32;
    if 0x41 <= u && u <= 0x5A {
        ascii_char(u + 32)
    } else {
        c
    }
}

/// ASCII lower-casing of a whole character sequence.
pub open spec fn spec_lower_ascii_seq(s: Seq<char>) -> Seq<char> {
    s.map_values(|c: char| spec_to_lower_ascii(c))
}

/// The characters of `s`, in order, as a vector.
pub fn str_chars(s: &str) -> (r: Vec<char>)
    ensures
        r@ == s@,
{
    let n = s.unicode_len();
    let mut r: Vec<char> = Vec::new();
    let mut i: usize = 0;
    while i < n
        invariant
            n == s@.len(),
            i <= n,
            r@ == s@.take(i as int),
        decreases n - i,
    {
        r.push(s.get_char(i));
        i = i + 1;
        assert(r@ =~= s@.take(i as int));
    }
    assert(r@ =~= s@);
    r
}

/// Relies on `String::push`: appends one character at the end.
#[verifier::external_body]
pub fn push_char(s: &mut String, c: char)
    ensures
        final(s)@ == old(s)@.push(c),
{
    s.push(c);
}

/// A string holding exactly the characters of `v`, in order.
pub fn chars_string(v: &Vec<char>) -> (r: String)
    ensures
        r@ == v@,
{
    let mut r = String::new();
    let mut i: usize = 0;
    while i < v.len()
        invariant
            i <= v@.len(),
            r@ == v@.take(i as int),
        decreases v@.len() - i,
    {
        push_char(&mut r, v[i]);
        i = i + 1;
        assert(r@ =~= v@.take(i as int));
    }
    assert(r@ =~= v@);
    r
}

/// Appends every character of `src` to `dst`.
pub fn push_all(dst: &mut Vec<char>, src: &Vec<char>)
    ensures
        final(dst)@ == old(dst)@ + src@,
{
    let ghost pre = dst@;
    let mut i: usize = 0;
    while i < src.len()
        invariant
            i <= src@.len(),
            dst@ == pre + src@.take(i as int),
        decreases src@.len() - i,
    {
        dst.push(src[i]);
        i = i + 1;
        assert(dst@ =~= pre + src@.take(i as int));
    }
    assert(dst@ =~= pre + src@);
}

/// Compares the characters of `v` with those of `s`.
pub fn str_eq_chars(v: &Vec<char>, s: &str) -> (r: bool)
    ensures
        r == (v@ == s@),
{
    let n = s.unicode_len();
    if v.len() != n {
        return false;
    }
    let mut i: usize = 0;
    while i < n
        invariant
            n == s@.len(),
            v@.len() == n,
            i <= n,
            forall|k: int| 0 <= k < i ==> v@[k] == s@[k],
        decreases n - i,
    {
        if v[i] != s.get_char(i) {
            return false;
        }
        i = i + 1;
    }
    assert(v@ =~= s@);
    true
}

/// Compares two character vectors.
pub fn chars_eq(a: &Vec<char>, b: &Vec<char>) -> (r: bool)
    ensures
        r == (a@ == b@),
{
    if a.len() != b.len() {
        return false;
    }
    let mut i: usize = 0;
    while i < a.len()
        invariant
            a@.len() == b@.len(),
            i <= a@.len(),
            forall|k: int| 0 <= k < i ==> a@[k] == b@[k],
        decreases a@.len() - i,
    {
        if a[i] != b[i] {
            return false;
        }
        i = i + 1;
    }
    assert(a@ =~= b@);
    true
}

/// The characters of `v` from `a` up to `b`.
pub fn slice_chars(v: &Vec<char>, a: usize, b: usize) -> (r: Vec<char>)
    requires
        a <= b <= v@.len(),
    ensures
        r@ == v@.subrange(a as int, b as int),
{
    let mut r: Vec<char> = Vec::new();
    let mut i: usize = a;
    while i < b
        invariant
            a <= i <= b <= v@.len(),
            r@ == v@.subrange(a as int, i as int),
        decreases b - i,
    {
        r.push(v[i]);
        i = i + 1;
        assert(r@ =~= v@.subrange(a as int, i as int));
    }
    r
}

/// A scan that stops at the first occurrence finds the first-occurrence
/// position.
pub proof fn lemma_first_sep_at(s: Seq<char>, sep: char, j: int)
    requires
        0 <= j <= s.len(),
        forall|k: int| 0 <= k < j ==> s[k] != sep,
        j < s.len() ==> s[j] == sep,
    ensures
        spec_first_sep(s, sep) == j,
    decreases j,
{
    if j == 0 {
    } else {
        assert(s[0] != sep);
        lemma_first_sep_at(s.drop_first(), sep, j - 1);
    }
}

/// The position of the first occurrence of `sep` in `v`, or the length of
/// `v` when it does not occur.
pub fn find_char(v: &Vec<char>, sep: char) -> (r: usize)
    ensures
        r == spec_first_sep(v@, sep),
{
    let mut i: usize = 0;
    while i < v.len()
        invariant
            i <= v@.len(),
            forall|k: int| 0 <= k < i ==> v@[k] != sep,
        decreases v@.len() - i,
    {
        if v[i] == sep {
            proof {
                lemma_first_sep_at(v@, sep, i as int);
            }
            return i;
        }
        i = i + 1;
    }
    proof {
        lemma_first_sep_at(v@, sep, v@.len() as int);
    }
    v.len()
}

/// ASCII lower-casing of every character of `v`.
pub fn lower_ascii_vec(v: &Vec<char>) -> (r: Vec<char>)
    ensures
        r@ == spec_lower_ascii_seq(v@),
{
    let mut r: Vec<char> = Vec::new();
    let mut i: usize = 0;
    while i < v.len()
        invariant
            i <= v@.len(),
            r@.len() == i,
            forall|k: int| 0 <= k < i ==> r@[k] == spec_to_lower_ascii(v@[k]),
        decreases v@.len() - i,
    {
        r.push(to_lower_ascii(v[i]));
        i = i + 1;
    }
    assert(r@ =~= spec_lower_ascii_seq(v@));
    r
}

/// The position of the first occurrence of `sep` in `s`, or the length of
/// `s` when it does not occur.
pub open spec fn spec_first_sep(s: Seq<char>, sep: char) -> nat
    decreases s.len(),
{
    if s.len() == 0 {
        0
    } else if s.first() == sep {
        0
    } else {
        1 + spec_first_sep(s.drop_first(), sep)
    }
}

/// The pieces of `s` between occurrences of `sep`, in order. A string
/// without the separator is one piece; every separator, including a leading
/// or trailing one, bounds a piece, so the result never is empty.
pub open spec fn spec_split(s: Seq<char>, sep: char) -> Seq<Seq<char>>
    decreases s.len(),
{
    let i = spec_first_sep(s, sep);
    if i >= s.len() {
        seq![s]
    } else {
        seq![s.take(i as int)] + spec_split(s.skip(i as int + 1), sep)
    }
}

/// Without an occurrence of `sep`, the first occurrence position is the
/// whole length.
pub proof fn lemma_first_sep_absent(s: Seq<char>, sep: char)
    requires
        forall|k: int| 0 <= k < s.len() ==> s[k] != sep,
    ensures
        spec_first_sep(s, sep) == s.len(),
    decreases s.len(),
{
    if s.len() > 0 {
        assert(s[0] != sep);
        lemma_first_sep_absent(s.drop_first(), sep);
    }
}

/// A sequence without the separator splits into itself alone.
pub proof fn lemma_split_absent(s: Seq<char>, sep: char)
    requires
        forall|k: int| 0 <= k < s.len() ==> s[k] != sep,
    ensures
        spec_split(s, sep) == seq![s],
{
    lemma_first_sep_absent(s, sep);
}

proof fn lemma_first_sep_concat(a: Seq<char>, rest: Seq<char>, sep: char)
    requires
        forall|k: int| 0 <= k < a.len() ==> a[k] != sep,
    ensures
        spec_first_sep(a + seq![sep] + rest, sep) == a.len(),
    decreases a.len(),
{
    let s = a + seq![sep] + rest;
    if a.len() == 0 {
        assert(s.first() == sep);
    } else {
        assert(s.first() == a[0]);
        assert(a[0] != sep);
        lemma_first_sep_concat(a.drop_first(), rest, sep);
        assert(s.drop_first() =~= a.drop_first() + seq![sep] + rest);
    }
}

/// Splitting at the first separator: the piece before it, then the split of
/// what follows it.
pub proof fn lemma_split_concat(a: Seq<char>, rest: Seq<char>, sep: char)
    requires
        forall|k: int| 0 <= k < a.len() ==> a[k] != sep,
    ensures
        spec_split(a + seq![sep] + rest, sep) == seq![a] + spec_split(rest, sep),
{
    let s = a + seq![sep] + rest;
    lemma_first_sep_concat(a, rest, sep);
    assert(s.take(a.len() as int) =~= a);
    assert(s.skip(a.len() as int + 1) =~= rest);
}

/// Splits the characters of `v` at every occurrence of `sep`.
pub fn split_chars(v: &Vec<char>, sep: char) -> (r: Vec<Vec<char>>)
    ensures
        r@.map_values(|x: Vec<char>| x@) == spec_split(v@, sep),
{
    let mut r: Vec<Vec<char>> = Vec::new();
    let mut cur: Vec<char> = Vec::new();
    let mut i: usize = 0;
    proof {
        assert(r@.map_values(|x: Vec<char>| x@) =~= Seq::<Seq<char>>::empty());
        assert(v@.skip(0) =~= v@);
        assert(Seq::<Seq<char>>::empty() + spec_split(v@, sep) =~= spec_split(v@, sep));
    }
    while i < v.len()
        invariant
            i <= v@.len(),
            cur@.len() <= i,
            cur@ == v@.subrange(i - cur@.len(), i as int),
            forall|k: int| 0 <= k < cur@.len() ==> cur@[k] != sep,
            spec_split(v@, sep) == r@.map_values(|x: Vec<char>| x@) + spec_split(
                v@.skip(i - cur@.len()),
                sep,
            ),
        decreases v@.len() - i,
    {
        let ghost start = i - cur@.len();
        if v[i] == sep {
            proof {
                assert(v@.skip(start) =~= cur@ + seq![sep] + v@.skip(i as int + 1));
                lemma_split_concat(cur@, v@.skip(i as int + 1), sep);
            }
            let ghost pre = r@.map_values(|x: Vec<char>| x@);
            r.push(cur);
            cur = Vec::new();
            proof {
                assert(r@.map_values(|x: Vec<char>| x@) =~= pre.push(v@.subrange(start, i as int)));
                assert(pre + (seq![v@.subrange(start, i as int)] + spec_split(
                    v@.skip(i as int + 1),
                    sep,
                )) =~= r@.map_values(|x: Vec<char>| x@) + spec_split(v@.skip(i as int + 1), sep));
            }
        } else {
            cur.push(v[i]);
            proof {
                assert(cur@ =~= v@.subrange(start, i as int + 1));
            }
        }
        i = i + 1;
    }
    proof {
        let ghost start = i - cur@.len();
        assert(v@.skip(start) =~= cur@);
        lemma_split_absent(cur@, sep);
    }
    let ghost pre = r@.map_values(|x: Vec<char>| x@);
    r.push(cur);
    proof {
        assert(r@.map_values(|x: Vec<char>| x@) =~= pre + seq![cur@]);
    }
    r
}

/// Whether `p` is a prefix of `v`.
pub open spec fn spec_starts_with(v: Seq<char>, p: Seq<char>) -> bool {
    v.len() >= p.len() && v.subrange(0, p.len() as int) == p
}

/// Whether the characters of `s` are a prefix of `v`.
pub fn starts_with_chars(v: &Vec<char>, s: &str) -> (r: bool)
    ensures
        r == spec_starts_with(v@, s@),
{
    let n = s.unicode_len();
    if v.len() < n {
        return false;
    }
    matches_at(v, s, 0)
}

/// The position of the first occurrence of `c1` or `c2` in `s`, or the
/// length of `s` when neither occurs.
pub open spec fn spec_first_sep2(s: Seq<char>, c1: char, c2: char) -> nat
    decreases s.len(),
{
    if s.len() == 0 {
        0
    } else if s.first() == c1 || s.first() == c2 {
        0
    } else {
        1 + spec_first_sep2(s.drop_first(), c1, c2)
    }
}

/// A scan that stops at the first occurrence of either character finds the
/// first-occurrence position.
pub proof fn lemma_first_sep2_at(s: Seq<char>, c1: char, c2: char, j: int)
    requires
        0 <= j <= s.len(),
        forall|k: int| 0 <= k < j ==> s[k] != c1 && s[k] != c2,
        j < s.len() ==> s[j] == c1 || s[j] == c2,
    ensures
        spec_first_sep2(s, c1, c2) == j,
    decreases j,
{
    if j == 0 {
    } else {
        assert(s[0] != c1 && s[0] != c2);
        lemma_first_sep2_at(s.drop_first(), c1, c2, j - 1);
    }
}

/// The position of the first occurrence of `c1` or `c2` in `v`, or the
/// length of `v` when neither occurs.
pub fn find_char2(v: &Vec<char>, c1: char, c2: char) -> (r: usize)
    ensures
        r == spec_first_sep2(v@, c1, c2),
        r <= v@.len(),
{
    let mut i: usize = 0;
    while i < v.len()
        invariant
            i <= v@.len(),
            forall|k: int| 0 <= k < i ==> v@[k] != c1 && v@[k] != c2,
        decreases v@.len() - i,
    {
        if v[i] == c1 || v[i] == c2 {
            proof {
                lemma_first_sep2_at(v@, c1, c2, i as int);
            }
            return i;
        }
        i = i + 1;
    }
    proof {
        lemma_first_sep2_at(v@, c1, c2, v@.len() as int);
    }
    v.len()
}

/// The pieces joined with the separator sequence between each two.
pub open spec fn spec_join_sep(parts: Seq<Seq<char>>, sep: Seq<char>) -> Seq<char>
    decreases parts.len(),
{
    if parts.len() == 0 {
        Seq::empty()
    } else if parts.len() == 1 {
        parts.first()
    } else {
        parts.first() + sep + spec_join_sep(parts.drop_first(), sep)
    }
}

/// Joining one more piece appends the separator and the piece.
pub proof fn lemma_join_sep_push(parts: Seq<Seq<char>>, q: Seq<char>, sep: Seq<char>)
    ensures
        spec_join_sep(parts.push(q), sep) == if parts.len() == 0 {
            q
        } else {
            spec_join_sep(parts, sep) + sep + q
        },
    decreases parts.len(),
{
    if parts.len() == 0 {
        assert(parts.push(q).first() == q);
    } else {
        lemma_join_sep_push(parts.drop_first(), q, sep);
        assert(parts.push(q).first() == parts.first());
        assert(parts.push(q).drop_first() =~= parts.drop_first().push(q));
        if parts.len() == 1 {
            assert(spec_join_sep(parts.push(q), sep) == parts.first() + sep + q);
        } else {
            let a = parts.first();
            let b = spec_join_sep(parts.drop_first(), sep);
            assert(spec_join_sep(parts.push(q), sep) == a + sep + (b + sep + q));
            assert(a + sep + (b + sep + q) =~= (a + sep + b) + sep + q);
        }
    }
}

/// Joins the character vectors of `parts` with the characters of `sep`
/// between each two.
pub fn join_chars_sep(parts: &Vec<Vec<char>>, sep: &str) -> (r: Vec<char>)
    ensures
        r@ == spec_join_sep(parts@.map_values(|x: Vec<char>| x@), sep@),
{
    let ghost views = parts@.map_values(|x: Vec<char>| x@);
    let sep_chars = str_chars(sep);
    let mut r: Vec<char> = Vec::new();
    let mut i: usize = 0;
    while i < parts.len()
        invariant
            i <= parts@.len(),
            views == parts@.map_values(|x: Vec<char>| x@),
            views.len() == parts@.len(),
            sep_chars@ == sep@,
            r@ == spec_join_sep(views.take(i as int), sep@),
        decreases parts@.len() - i,
    {
        proof {
            assert(views.take(i as int + 1) =~= views.take(i as int).push(views[i as int]));
            lemma_join_sep_push(views.take(i as int), views[i as int], sep@);
        }
        if i > 0 {
            push_all(&mut r, &sep_chars);
        }
        push_all(&mut r, &parts[i]);
        proof {
            if i > 0 {
                assert(r@ =~= spec_join_sep(views.take(i as int), sep@) + sep@ + views[i as int]);
            }
        }
        i = i + 1;
    }
    proof {
        assert(views.take(views.len() as int) =~= views);
    }
    r
}

/// The pieces joined with `sep` between each two.
pub open spec fn spec_join(parts: Seq<Seq<char>>, sep: char) -> Seq<char>
    decreases parts.len(),
{
    if parts.len() == 0 {
        Seq::empty()
    } else if parts.len() == 1 {
        parts.first()
    } else {
        parts.first() + seq![sep] + spec_join(parts.drop_first(), sep)
    }
}

/// Joining one more piece appends a separator and the piece.
pub proof fn lemma_join_push(parts: Seq<Seq<char>>, q: Seq<char>, sep: char)
    ensures
        spec_join(parts.push(q), sep) == if parts.len() == 0 {
            q
        } else {
            spec_join(parts, sep) + seq![sep] + q
        },
    decreases parts.len(),
{
    if parts.len() == 0 {
        assert(parts.push(q).first() == q);
    } else {
        lemma_join_push(parts.drop_first(), q, sep);
        assert(parts.push(q).first() == parts.first());
        assert(parts.push(q).drop_first() =~= parts.drop_first().push(q));
        if parts.len() == 1 {
            assert(spec_join(parts.push(q), sep) == parts.first() + seq![sep] + q);
        } else {
            let a = parts.first();
            let b = spec_join(parts.drop_first(), sep);
            assert(spec_join(parts.push(q), sep) == a + seq![sep] + (b + seq![sep] + q));
            assert(a + seq![sep] + (b + seq![sep] + q) =~= (a + seq![sep] + b) + seq![sep] + q);
        }
    }
}

/// Joins the character vectors of `parts` with `sep` between each two.
pub fn join_chars(parts: &Vec<Vec<char>>, sep: char) -> (r: Vec<char>)
    ensures
        r@ == spec_join(parts@.map_values(|x: Vec<char>| x@), sep),
{
    let ghost views = parts@.map_values(|x: Vec<char>| x@);
    let mut r: Vec<char> = Vec::new();
    let mut i: usize = 0;
    while i < parts.len()
        invariant
            i <= parts@.len(),
            views == parts@.map_values(|x: Vec<char>| x@),
            views.len() == parts@.len(),
            r@ == spec_join(views.take(i as int), sep),
        decreases parts@.len() - i,
    {
        proof {
            assert(views.take(i as int + 1) =~= views.take(i as int).push(views[i as int]));
            lemma_join_push(views.take(i as int), views[i as int], sep);
        }
        if i > 0 {
            r.push(sep);
        }
        push_all(&mut r, &parts[i]);
        proof {
            if i > 0 {
                assert(r@ =~= spec_join(views.take(i as int), sep) + seq![sep] + views[i as int]);
            }
        }
        i = i + 1;
    }
    proof {
        assert(views.take(views.len() as int) =~= views);
    }
    r
}

/// The sequence without its leading whitespace.
pub open spec fn spec_trim_start(s: Seq<char>) -> Seq<char>
    decreases s.len(),
{
    if s.len() > 0 && spec_char_is_whitespace(s.first()) {
        spec_trim_start(s.drop_first())
    } else {
        s
    }
}

/// The sequence without its trailing whitespace.
pub open spec fn spec_trim_end(s: Seq<char>) -> Seq<char>
    decreases s.len(),
{
    if s.len() > 0 && spec_char_is_whitespace(s.last()) {
        spec_trim_end(s.drop_last())
    } else {
        s
    }
}

/// The sequence without leading and trailing whitespace.
pub open spec fn spec_trim(s: Seq<char>) -> Seq<char> {
    spec_trim_end(spec_trim_start(s))
}

proof fn lemma_trim_start_skip(s: Seq<char>, a: int)
    requires
        0 <= a <= s.len(),
        forall|k: int| 0 <= k < a ==> spec_char_is_whitespace(s[k]),
        a < s.len() ==> !spec_char_is_whitespace(s[a]),
    ensures
        spec_trim_start(s) == s.skip(a),
    decreases a,
{
    if a == 0 {
        assert(s.skip(0) =~= s);
    } else {
        assert(spec_char_is_whitespace(s[0]));
        lemma_trim_start_skip(s.drop_first(), a - 1);
        assert(s.drop_first().skip(a - 1) =~= s.skip(a));
    }
}

proof fn lemma_trim_end_take(s: Seq<char>, b: int)
    requires
        0 <= b <= s.len(),
        forall|k: int| b <= k < s.len() ==> spec_char_is_whitespace(s[k]),
        b > 0 ==> !spec_char_is_whitespace(s[b - 1]),
    ensures
        spec_trim_end(s) == s.take(b),
    decreases s.len(),
{
    if b == s.len() {
        assert(s.take(b) =~= s);
    } else {
        assert(spec_char_is_whitespace(s.last()));
        lemma_trim_end_take(s.drop_last(), b);
        assert(s.drop_last().take(b) =~= s.take(b));
    }
}

/// The characters of `v` without leading and trailing whitespace.
pub fn trim_chars(v: &Vec<char>) -> (r: Vec<char>)
    ensures
        r@ == spec_trim(v@),
{
    let n = v.len();
    let mut a: usize = 0;
    while a < n && char_is_whitespace(v[a])
        invariant
            n == v@.len(),
            a <= n,
            forall|k: int| 0 <= k < a ==> spec_char_is_whitespace(v@[k]),
        decreases n - a,
    {
        a = a + 1;
    }
    proof {
        lemma_trim_start_skip(v@, a as int);
    }
    let mut b: usize = n;
    while b > a && char_is_whitespace(v[b - 1])
        invariant
            n == v@.len(),
            a <= b <= n,
            forall|k: int| b <= k < n ==> spec_char_is_whitespace(v@[k]),
        decreases b,
    {
        b = b - 1;
    }
    proof {
        lemma_trim_end_take(v@.skip(a as int), b - a);
        assert(v@.skip(a as int).take(b - a) =~= v@.subrange(a as int, b as int));
    }
    let mut r: Vec<char> = Vec::new();
    let mut i: usize = a;
    while i < b
        invariant
            a <= i <= b <= v@.len(),
            r@ == v@.subrange(a as int, i as int),
        decreases b - i,
    {
        r.push(v[i]);
        i = i + 1;
        assert(r@ =~= v@.subrange(a as int, i as int));
    }
    r
}

/// The sequence with every carriage-return/line-feed pair collapsed to a
/// single line feed.
pub open spec fn spec_normalize_newlines(s: Seq<char>) -> Seq<char>
    decreases s.len(),
{
    if s.len() == 0 {
        Seq::empty()
    } else if s.len() >= 2 && s[0] == '\r' && s[1] == '\n' {
        seq!['\n'] + spec_normalize_newlines(s.skip(2))
    } else {
        seq![s[0]] + spec_normalize_newlines(s.skip(1))
    }
}

/// Collapses every carriage-return/line-feed pair of `text` into a single
/// line feed.
pub fn normalize_newlines(text: &str) -> (r: String)
    ensures
        r@ == spec_normalize_newlines(text@),
{
    let n = text.unicode_len();
    let mut out = String::new();
    let mut i: usize = 0;
    let ghost whole = text@;
    proof {
        assert(whole.skip(0) =~= whole);
    }
    while i < n
        invariant
            n == whole.len(),
            whole == text@,
            i <= n,
            out@ + spec_normalize_newlines(whole.skip(i as int)) == spec_normalize_newlines(
                whole,
            ),
        decreases n - i,
    {
        proof {
            assert(whole.skip(i as int)[0] == whole[i as int]);
            if i + 1 < n {
                assert(whole.skip(i as int)[1] == whole[i as int + 1]);
            }
            assert(whole.skip(i as int).skip(1) =~= whole.skip(i as int + 1));
            if i + 2 <= n {
                assert(whole.skip(i as int).skip(2) =~= whole.skip(i as int + 2));
            }
        }
        let c = text.get_char(i);
        if c == '\r' && i + 1 < n && text.get_char(i + 1) == '\n' {
            push_char(&mut out, '\n');
            i = i + 2;
        } else {
            push_char(&mut out, c);
            i = i + 1;
        }
        proof {
            assert(out@ + spec_normalize_newlines(whole.skip(i as int)) =~= spec_normalize_newlines(
                whole,
            ));
        }
    }
    proof {
        assert(whole.skip(n as int) =~= Seq::<char>::empty());
        assert(out@ =~= out@ + Seq::<char>::empty());
    }
    out
}

/// Whether `needle` occurs as a contiguous run inside `hay`.
pub open spec fn spec_contains_seq(hay: Seq<char>, needle: Seq<char>) -> bool {
    exists|o: int|
        0 <= o <= hay.len() - needle.len() && #[trigger] hay.subrange(o, o + needle.len())
            == needle
}

fn matches_at(v: &Vec<char>, s: &str, o: usize) -> (r: bool)
    requires
        o + s@.len() <= v@.len(),
    ensures
        r == (v@.subrange(o as int, o as int + s@.len()) == s@),
{
    let n = s.unicode_len();
    let vlen = v.len();
    let mut j: usize = 0;
    while j < n
        invariant
            n == s@.len(),
            o + n <= v@.len(),
            v@.len() == vlen,
            j <= n,
            forall|k: int| 0 <= k < j ==> v@[o + k] == s@[k],
        decreases n - j,
    {
        if v[o + j] != s.get_char(j) {
            proof {
                assert(v@.subrange(o as int, o as int + s@.len())[j as int] == v@[o + j]);
            }
            return false;
        }
        j = j + 1;
    }
    assert(v@.subrange(o as int, o as int + s@.len()) =~= s@);
    true
}

/// Whether the characters of `s` occur contiguously inside `v`.
pub fn contains_chars(v: &Vec<char>, s: &str) -> (r: bool)
    ensures
        r == spec_contains_seq(v@, s@),
{
    let n = s.unicode_len();
    if n > v.len() {
        return false;
    }
    let last = v.len() - n;
    let mut o: usize = 0;
    loop
        invariant_except_break
            n == s@.len(),
            n <= v@.len(),
            last == v@.len() - n,
            o <= last,
            forall|k: int| 0 <= k < o ==> #[trigger] v@.subrange(k, k + s@.len()) != s@,
        ensures
            !spec_contains_seq(v@, s@),
        decreases last - o,
    {
        if matches_at(v, s, o) {
            return true;
        }
        if o == last {
            break ;
        }
        o = o + 1;
    }
    false
}

/// The decimal digit character for a value below ten.
pub open spec fn spec_digit_char(d: nat) -> char {
    (0x30 + d) as char
}

/// The decimal rendering of `n`, most significant digit first, with no
/// leading zeros (zero itself renders as one digit).
pub open spec fn spec_dec_digits(n: nat) -> Seq<char>
    decreases n,
{
    if n < 10 {
        seq![spec_digit_char(n)]
    } else {
        spec_dec_digits(n / 10).push(spec_digit_char(n % 10))
    }
}

proof fn lemma_reverse_push<A>(s: Seq<A>, a: A)
    ensures
        s.push(a).reverse() =~= seq![a] + s.reverse(),
{
}

/// The decimal rendering of `n` as a string.
pub fn usize_to_string(n: usize) -> (r: String)
    ensures
        r@ == spec_dec_digits(n as nat),
{
    let mut rev: Vec<char> = Vec::new();
    let mut m: usize = n;
    loop
        invariant_except_break
            spec_dec_digits(n as nat) =~= spec_dec_digits(m as nat) + rev@.reverse(),
        ensures
            spec_dec_digits(n as nat) =~= rev@.reverse(),
        decreases m,
    {
        let d: u32 = (m % 10) as u32;
        proof {
            lemma_reverse_push(rev@, spec_digit_char((m % 10) as nat));
        }
        rev.push(ascii_char(0x30 + d));
        if m < 10 {
            break ;
        }
        m = m / 10;
    }
    let mut out: Vec<char> = Vec::new();
    let mut i: usize = rev.len();
    while i > 0
        invariant
            i <= rev@.len(),
            out@ =~= rev@.skip(i as int).reverse(),
        decreases i,
    {
        i = i - 1;
        out.push(rev[i]);
        assert(out@ =~= rev@.skip(i as int).reverse());
    }
    assert(out@ =~= rev@.reverse());
    chars_string(&out)
}

} // verus!
