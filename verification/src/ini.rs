//! The INI-style key/value format of the KDE global-shortcut
//! configuration: parsing, updating and rendering.
//!
//! The document model keeps groups and entries in first-seen order, and
//! rendering writes them back in that order; setting an existing key
//! replaces its value in place.

use vstd::prelude::*;

use crate::chars::{
    chars_eq, chars_string, find_char, push_char, slice_chars, spec_first_sep, spec_split,
    spec_trim, split_chars, str_chars, trim_chars,
};

verus! {

/// An INI document: its groups, each with its entries, in first-seen
/// order.
pub struct IniData {
    pub groups: Vec<(Vec<char>, Vec<(Vec<char>, Vec<char>)>)>,
}

/// The entries of one group as character sequences.
pub open spec fn spec_entry_views(entries: Seq<(Vec<char>, Vec<char>)>) -> Seq<
    (Seq<char>, Seq<char>),
> {
    entries.map_values(|e: (Vec<char>, Vec<char>)| (e.0@, e.1@))
}

impl View for IniData {
    type V = Seq<(Seq<char>, Seq<(Seq<char>, Seq<char>)>)>;

    open spec fn view(&self) -> Seq<(Seq<char>, Seq<(Seq<char>, Seq<char>)>)> {
        self.groups@.map_values(
            |g: (Vec<char>, Vec<(Vec<char>, Vec<char>)>)| (g.0@, spec_entry_views(g.1@)),
        )
    }
}

/// The position of the group named `name`, or the number of groups when
/// none carries that name.
pub open spec fn spec_group_index(
    data: Seq<(Seq<char>, Seq<(Seq<char>, Seq<char>)>)>,
    name: Seq<char>,
) -> nat
    decreases data.len(),
{
    if data.len() == 0 {
        0
    } else if data.first().0 == name {
        0
    } else {
        1 + spec_group_index(data.drop_first(), name)
    }
}

/// The entries with `k` set to `v`: the first entry with key `k` is
/// replaced in place, or the pair appended when none exists.
pub open spec fn spec_entries_set(
    entries: Seq<(Seq<char>, Seq<char>)>,
    k: Seq<char>,
    v: Seq<char>,
) -> Seq<(Seq<char>, Seq<char>)>
    decreases entries.len(),
{
    if entries.len() == 0 {
        seq![(k, v)]
    } else if entries.first().0 == k {
        seq![(k, v)] + entries.drop_first()
    } else {
        seq![entries.first()] + spec_entries_set(entries.drop_first(), k, v)
    }
}

/// The document with `k` set to `v` in the group named `g`: the group is
/// appended when absent.
pub open spec fn spec_ini_set(
    data: Seq<(Seq<char>, Seq<(Seq<char>, Seq<char>)>)>,
    g: Seq<char>,
    k: Seq<char>,
    v: Seq<char>,
) -> Seq<(Seq<char>, Seq<(Seq<char>, Seq<char>)>)> {
    let i = spec_group_index(data, g);
    if i < data.len() {
        data.update(i as int, (data[i as int].0, spec_entries_set(data[i as int].1, k, v)))
    } else {
        data.push((g, seq![(k, v)]))
    }
}

proof fn lemma_group_index_at(
    data: Seq<(Seq<char>, Seq<(Seq<char>, Seq<char>)>)>,
    name: Seq<char>,
    j: int,
)
    requires
        0 <= j <= data.len(),
        forall|i: int| 0 <= i < j ==> (#[trigger] data[i]).0 != name,
        j < data.len() ==> data[j].0 == name,
    ensures
        spec_group_index(data, name) == j,
    decreases j,
{
    if j == 0 {
    } else {
        assert(data[0].0 != name);
        lemma_group_index_at(data.drop_first(), name, j - 1);
    }
}

proof fn lemma_entries_set_at(entries: Seq<(Seq<char>, Seq<char>)>, k: Seq<char>, v: Seq<char>, j: int)
    requires
        0 <= j < entries.len(),
        forall|i: int| 0 <= i < j ==> (#[trigger] entries[i]).0 != k,
        entries[j].0 == k,
    ensures
        spec_entries_set(entries, k, v) == entries.update(j, (k, v)),
    decreases j,
{
    if j == 0 {
        assert(seq![(k, v)] + entries.drop_first() =~= entries.update(0, (k, v)));
    } else {
        assert(entries[0].0 != k);
        lemma_entries_set_at(entries.drop_first(), k, v, j - 1);
        assert(entries.drop_first().update(j - 1, (k, v)) =~= entries.update(j, (k, v)).drop_first());
        assert(seq![entries.first()] + entries.drop_first().update(j - 1, (k, v)) =~= entries.update(
            j,
            (k, v),
        ));
    }
}

proof fn lemma_entries_set_absent(entries: Seq<(Seq<char>, Seq<char>)>, k: Seq<char>, v: Seq<char>)
    requires
        forall|i: int| 0 <= i < entries.len() ==> (#[trigger] entries[i]).0 != k,
    ensures
        spec_entries_set(entries, k, v) == entries.push((k, v)),
    decreases entries.len(),
{
    if entries.len() == 0 {
        assert(seq![(k, v)] =~= entries.push((k, v)));
    } else {
        assert(entries[0].0 != k);
        lemma_entries_set_absent(entries.drop_first(), k, v);
        assert(seq![entries.first()] + entries.drop_first().push((k, v)) =~= entries.push((k, v)));
    }
}

fn entries_set(entries: &mut Vec<(Vec<char>, Vec<char>)>, k: Vec<char>, v: Vec<char>)
    ensures
        spec_entry_views(final(entries)@) == spec_entries_set(
            spec_entry_views(old(entries)@),
            k@,
            v@,
        ),
{
    let ghost pre = spec_entry_views(entries@);
    let mut j: usize = 0;
    while j < entries.len()
        invariant
            entries@ == old(entries)@,
            pre == spec_entry_views(entries@),
            pre.len() == entries@.len(),
            j <= entries@.len(),
            forall|i: int| 0 <= i < j ==> (#[trigger] pre[i]).0 != k@,
        decreases entries@.len() - j,
    {
        proof {
            assert(pre[j as int] == (entries@[j as int].0@, entries@[j as int].1@));
        }
        if chars_eq(&entries[j].0, &k) {
            proof {
                lemma_entries_set_at(pre, k@, v@, j as int);
            }
            entries.set(j, (k, v));
            proof {
                assert(spec_entry_views(entries@) =~= pre.update(j as int, (k@, v@)));
            }
            return ;
        }
        j = j + 1;
    }
    proof {
        lemma_entries_set_absent(pre, k@, v@);
    }
    entries.push((k, v));
    proof {
        assert(spec_entry_views(entries@) =~= pre.push((k@, v@)));
    }
}

fn ini_set_chars(data: &mut IniData, g: &Vec<char>, k: Vec<char>, v: Vec<char>)
    ensures
        final(data)@ == spec_ini_set(old(data)@, g@, k@, v@),
{
    let ghost pre = data@;
    let mut j: usize = 0;
    while j < data.groups.len()
        invariant
            data@ == pre,
            old(data)@ == pre,
            data.groups@.len() == pre.len(),
            j <= pre.len(),
            forall|i: int| 0 <= i < j ==> (#[trigger] pre[i]).0 != g@,
        decreases pre.len() - j,
    {
        proof {
            assert(pre[j as int] == (data.groups@[j as int].0@, spec_entry_views(
                data.groups@[j as int].1@,
            )));
        }
        if chars_eq(&data.groups[j].0, g) {
            proof {
                lemma_group_index_at(pre, g@, j as int);
            }
            let pair = data.groups.remove(j);
            let mut entries = pair.1;
            entries_set(&mut entries, k, v);
            data.groups.insert(j, (pair.0, entries));
            proof {
                assert(data@ =~= pre.update(
                    j as int,
                    (pre[j as int].0, spec_entries_set(pre[j as int].1, k@, v@)),
                ));
                assert(spec_group_index(pre, g@) == j);
                assert(spec_ini_set(pre, g@, k@, v@) == pre.update(
                    j as int,
                    (pre[j as int].0, spec_entries_set(pre[j as int].1, k@, v@)),
                ));
            }
            return ;
        }
        j = j + 1;
    }
    proof {
        lemma_group_index_at(pre, g@, pre.len() as int);
    }
    let gname = slice_chars(g, 0, g.len());
    proof {
        assert(gname@ =~= g@);
    }
    let mut entries: Vec<(Vec<char>, Vec<char>)> = Vec::new();
    entries.push((k, v));
    data.groups.push((gname, entries));
    proof {
        assert(spec_entry_views(data.groups@.last().1@) =~= seq![(k@, v@)]);
        assert(data@ =~= pre.push((g@, seq![(k@, v@)])));
    }
}

/// Sets `key` to `value` in `group`, creating the group and the entry as
/// needed.
pub fn ini_set(data: &mut IniData, group: &str, key: &str, value: &str)
    ensures
        final(data)@ == spec_ini_set(old(data)@, group@, key@, value@),
{
    let g = str_chars(group);
    let k = str_chars(key);
    let v = str_chars(value);
    ini_set_chars(data, &g, k, v)
}

/// A bracket character of a group header.
pub open spec fn spec_is_bracket(c: char) -> bool {
    c == '[' || c == ']'
}

/// The sequence without its leading bracket characters.
pub open spec fn spec_brackets_start(s: Seq<char>) -> Seq<char>
    decreases s.len(),
{
    if s.len() > 0 && spec_is_bracket(s.first()) {
        spec_brackets_start(s.drop_first())
    } else {
        s
    }
}

/// The sequence without its trailing bracket characters.
pub open spec fn spec_brackets_end(s: Seq<char>) -> Seq<char>
    decreases s.len(),
{
    if s.len() > 0 && spec_is_bracket(s.last()) {
        spec_brackets_end(s.drop_last())
    } else {
        s
    }
}

/// A group-header line without its surrounding brackets.
pub open spec fn spec_trim_brackets(s: Seq<char>) -> Seq<char> {
    spec_brackets_end(spec_brackets_start(s))
}

proof fn lemma_brackets_start_skip(s: Seq<char>, a: int)
    requires
        0 <= a <= s.len(),
        forall|k: int| 0 <= k < a ==> spec_is_bracket(s[k]),
        a < s.len() ==> !spec_is_bracket(s[a]),
    ensures
        spec_brackets_start(s) == s.skip(a),
    decreases a,
{
    if a == 0 {
        assert(s.skip(0) =~= s);
    } else {
        assert(spec_is_bracket(s[0]));
        lemma_brackets_start_skip(s.drop_first(), a - 1);
        assert(s.drop_first().skip(a - 1) =~= s.skip(a));
    }
}

proof fn lemma_brackets_end_take(s: Seq<char>, b: int)
    requires
        0 <= b <= s.len(),
        forall|k: int| b <= k < s.len() ==> spec_is_bracket(s[k]),
        b > 0 ==> !spec_is_bracket(s[b - 1]),
    ensures
        spec_brackets_end(s) == s.take(b),
    decreases s.len(),
{
    if b == s.len() {
        assert(s.take(b) =~= s);
    } else {
        assert(spec_is_bracket(s.last()));
        lemma_brackets_end_take(s.drop_last(), b);
        assert(s.drop_last().take(b) =~= s.take(b));
    }
}

fn is_bracket(c: char) -> (r: bool)
    ensures
        r == spec_is_bracket(c),
{
    c == '[' || c == ']'
}

/// The characters of `v` without leading and trailing brackets.
fn trim_brackets(v: &Vec<char>) -> (r: Vec<char>)
    ensures
        r@ == spec_trim_brackets(v@),
{
    let n = v.len();
    let mut a: usize = 0;
    while a < n && is_bracket(v[a])
        invariant
            n == v@.len(),
            a <= n,
            forall|k: int| 0 <= k < a ==> spec_is_bracket(v@[k]),
        decreases n - a,
    {
        a = a + 1;
    }
    proof {
        lemma_brackets_start_skip(v@, a as int);
    }
    let mut b: usize = n;
    while b > a && is_bracket(v[b - 1])
        invariant
            n == v@.len(),
            a <= b <= n,
            forall|k: int| b <= k < n ==> spec_is_bracket(v@[k]),
        decreases b,
    {
        b = b - 1;
    }
    proof {
        lemma_brackets_end_take(v@.skip(a as int), b - a);
        assert(v@.skip(a as int).take(b - a) =~= v@.subrange(a as int, b as int));
    }
    slice_chars(v, a, b)
}

/// A line the parser ignores: blank, or a comment.
pub open spec fn spec_is_skipped_line(t: Seq<char>) -> bool {
    t.len() == 0 || t[0] == '#' || t[0] == ';'
}

/// A group-header line: brackets at both ends.
pub open spec fn spec_is_group_header(t: Seq<char>) -> bool {
    t.len() > 0 && t[0] == '[' && t[t.len() - 1] == ']'
}

/// What one line does to the parser's state: a header switches the current
/// group, a key/value line updates the document inside the current group,
/// and everything else is ignored.
pub open spec fn spec_ini_line_step(
    cur: Option<Seq<char>>,
    data: Seq<(Seq<char>, Seq<(Seq<char>, Seq<char>)>)>,
    line: Seq<char>,
) -> (Option<Seq<char>>, Seq<(Seq<char>, Seq<(Seq<char>, Seq<char>)>)>) {
    let t = spec_trim(line);
    if spec_is_skipped_line(t) {
        (cur, data)
    } else if spec_is_group_header(t) {
        (Some(spec_trim_brackets(t)), data)
    } else if spec_first_sep(t, '=') < t.len() {
        match cur {
            Some(g) => (
                cur,
                spec_ini_set(
                    data,
                    g,
                    spec_trim(t.take(spec_first_sep(t, '=') as int)),
                    spec_trim(t.skip(spec_first_sep(t, '=') as int + 1)),
                ),
            ),
            None => (cur, data),
        }
    } else {
        (cur, data)
    }
}

/// The parser's state after the first `i` lines.
pub open spec fn spec_parse_lines(lines: Seq<Seq<char>>, i: int) -> (
    Option<Seq<char>>,
    Seq<(Seq<char>, Seq<(Seq<char>, Seq<char>)>)>,
)
    decreases i,
{
    if i <= 0 {
        (None::<Seq<char>>, Seq::empty())
    } else {
        let prev = spec_parse_lines(lines, i - 1);
        spec_ini_line_step(prev.0, prev.1, lines[i - 1])
    }
}

/// The document a configuration text denotes: its lines read in order.
pub open spec fn spec_parse_ini(s: Seq<char>) -> Seq<(Seq<char>, Seq<(Seq<char>, Seq<char>)>)> {
    spec_parse_lines(spec_split(s, '\n'), spec_split(s, '\n').len() as int).1
}

/// Parses a configuration text line by line.
pub fn parse_ini(contents: &str) -> (r: IniData)
    ensures
        r@ == spec_parse_ini(contents@),
{
    let chars = str_chars(contents);
    let lines = split_chars(&chars, '\n');
    let ghost lines_spec = spec_split(contents@, '\n');
    let mut data = IniData { groups: Vec::new() };
    let mut cur: Option<Vec<char>> = None;
    let mut i: usize = 0;
    proof {
        assert(data@ =~= Seq::<(Seq<char>, Seq<(Seq<char>, Seq<char>)>)>::empty());
    }
    while i < lines.len()
        invariant
            lines@.map_values(|x: Vec<char>| x@) == lines_spec,
            lines_spec.len() == lines@.len(),
            i <= lines@.len(),
            data@ == spec_parse_lines(lines_spec, i as int).1,
            match cur {
                Some(g) => spec_parse_lines(lines_spec, i as int).0 == Some(g@),
                None => spec_parse_lines(lines_spec, i as int).0 is None,
            },
        decreases lines@.len() - i,
    {
        proof {
            assert(lines@.map_values(|x: Vec<char>| x@)[i as int] == lines@[i as int]@);
        }
        let t = trim_chars(&lines[i]);
        let tlen = t.len();
        if tlen == 0 {
        } else if t[0] == '#' || t[0] == ';' {
        } else if t[0] == '[' && t[tlen - 1] == ']' {
            cur = Some(trim_brackets(&t));
        } else {
            let eq = find_char(&t, '=');
            if eq < tlen {
                match &cur {
                    Some(g) => {
                        let kslice = slice_chars(&t, 0, eq);
                        let k = trim_chars(&kslice);
                        let vslice = slice_chars(&t, eq + 1, tlen);
                        let v = trim_chars(&vslice);
                        ini_set_chars(&mut data, g, k, v);
                    },
                    None => {},
                }
            }
        }
        i = i + 1;
    }
    data
}

/// The rendering of one group's entries: one `key=value` line each.
pub open spec fn spec_render_entries(entries: Seq<(Seq<char>, Seq<char>)>) -> Seq<char>
    decreases entries.len(),
{
    if entries.len() == 0 {
        Seq::empty()
    } else {
        entries.first().0 + seq!['='] + entries.first().1 + seq!['\n'] + spec_render_entries(
            entries.drop_first(),
        )
    }
}

/// The rendering of a document: each group header in brackets, followed by
/// its entries, in stored order.
pub open spec fn spec_render_ini(data: Seq<(Seq<char>, Seq<(Seq<char>, Seq<char>)>)>) -> Seq<char>
    decreases data.len(),
{
    if data.len() == 0 {
        Seq::empty()
    } else {
        seq!['['] + data.first().0 + seq![']'] + seq!['\n'] + spec_render_entries(data.first().1)
            + spec_render_ini(data.drop_first())
    }
}

proof fn lemma_render_entries_push(entries: Seq<(Seq<char>, Seq<char>)>, e: (Seq<char>, Seq<char>))
    ensures
        spec_render_entries(entries.push(e)) == spec_render_entries(entries) + (e.0 + seq!['=']
            + e.1 + seq!['\n']),
    decreases entries.len(),
{
    if entries.len() == 0 {
        let x = e.0 + seq!['='] + e.1 + seq!['\n'];
        assert(entries.push(e).first() == e);
        assert(entries.push(e).drop_first() =~= Seq::<(Seq<char>, Seq<char>)>::empty());
        assert(spec_render_entries(Seq::<(Seq<char>, Seq<char>)>::empty()) == Seq::<char>::empty());
        assert(entries =~= Seq::<(Seq<char>, Seq<char>)>::empty());
        assert(spec_render_entries(entries.push(e)) == x + Seq::<char>::empty());
        assert(x + Seq::<char>::empty() =~= Seq::<char>::empty() + x);
    } else {
        lemma_render_entries_push(entries.drop_first(), e);
        assert(entries.push(e).first() == entries.first());
        assert(entries.push(e).drop_first() =~= entries.drop_first().push(e));
        let h = entries.first().0 + seq!['='] + entries.first().1 + seq!['\n'];
        let x = e.0 + seq!['='] + e.1 + seq!['\n'];
        let rec = spec_render_entries(entries.drop_first());
        assert(spec_render_entries(entries.push(e)) == h + spec_render_entries(
            entries.drop_first().push(e),
        ));
        assert(spec_render_entries(entries.drop_first().push(e)) == rec + x);
        assert(h + (rec + x) =~= (h + rec) + x);
        assert(spec_render_entries(entries) == h + rec);
    }
}

proof fn lemma_render_ini_push(
    data: Seq<(Seq<char>, Seq<(Seq<char>, Seq<char>)>)>,
    grp: (Seq<char>, Seq<(Seq<char>, Seq<char>)>),
)
    ensures
        spec_render_ini(data.push(grp)) == spec_render_ini(data) + (seq!['['] + grp.0 + seq![']']
            + seq!['\n'] + spec_render_entries(grp.1)),
    decreases data.len(),
{
    if data.len() == 0 {
        let x = seq!['['] + grp.0 + seq![']'] + seq!['\n'] + spec_render_entries(grp.1);
        assert(data.push(grp).first() == grp);
        assert(data.push(grp).drop_first() =~= Seq::<
            (Seq<char>, Seq<(Seq<char>, Seq<char>)>),
        >::empty());
        assert(spec_render_ini(Seq::<(Seq<char>, Seq<(Seq<char>, Seq<char>)>)>::empty())
            == Seq::<char>::empty());
        assert(data =~= Seq::<(Seq<char>, Seq<(Seq<char>, Seq<char>)>)>::empty());
        assert(spec_render_ini(data.push(grp)) == x + Seq::<char>::empty());
        assert(x + Seq::<char>::empty() =~= Seq::<char>::empty() + x);
    } else {
        lemma_render_ini_push(data.drop_first(), grp);
        assert(data.push(grp).first() == data.first());
        assert(data.push(grp).drop_first() =~= data.drop_first().push(grp));
        let h = seq!['['] + data.first().0 + seq![']'] + seq!['\n'] + spec_render_entries(
            data.first().1,
        );
        let x = seq!['['] + grp.0 + seq![']'] + seq!['\n'] + spec_render_entries(grp.1);
        let rec = spec_render_ini(data.drop_first());
        assert(spec_render_ini(data.push(grp)) == h + spec_render_ini(data.drop_first().push(grp)));
        assert(spec_render_ini(data.drop_first().push(grp)) == rec + x);
        assert(h + (rec + x) =~= (h + rec) + x);
        assert(spec_render_ini(data) == h + rec);
    }
}

/// Renders the document back to its textual form, groups and entries in
/// stored order.
pub fn render_ini(data: &IniData) -> (r: String)
    ensures
        r@ == spec_render_ini(data@),
{
    let mut out = String::new();
    let mut i: usize = 0;
    proof {
        assert(data@.take(0) =~= Seq::<(Seq<char>, Seq<(Seq<char>, Seq<char>)>)>::empty());
    }
    while i < data.groups.len()
        invariant
            i <= data.groups@.len(),
            data@.len() == data.groups@.len(),
            out@ == spec_render_ini(data@.take(i as int)),
        decreases data.groups@.len() - i,
    {
        proof {
            assert(data@.take(i as int + 1) =~= data@.take(i as int).push(data@[i as int]));
            lemma_render_ini_push(data@.take(i as int), data@[i as int]);
            assert(data@[i as int] == (data.groups@[i as int].0@, spec_entry_views(
                data.groups@[i as int].1@,
            )));
        }
        push_char(&mut out, '[');
        let name = chars_string(&data.groups[i].0);
        out.append(name.as_str());
        push_char(&mut out, ']');
        push_char(&mut out, '\n');
        let ghost head = spec_render_ini(data@.take(i as int)) + seq!['['] + data@[i as int].0
            + seq![']'] + seq!['\n'];
        proof {
            assert(out@ =~= head);
        }
        let entries = &data.groups[i].1;
        let ghost entry_views = spec_entry_views(entries@);
        let mut j: usize = 0;
        proof {
            assert(entry_views.take(0) =~= Seq::<(Seq<char>, Seq<char>)>::empty());
        }
        while j < entries.len()
            invariant
                j <= entries@.len(),
                entry_views == spec_entry_views(entries@),
                entry_views.len() == entries@.len(),
                out@ == head + spec_render_entries(entry_views.take(j as int)),
            decreases entries@.len() - j,
        {
            proof {
                assert(entry_views.take(j as int + 1) =~= entry_views.take(j as int).push(
                    entry_views[j as int],
                ));
                lemma_render_entries_push(entry_views.take(j as int), entry_views[j as int]);
                assert(entry_views[j as int] == (entries@[j as int].0@, entries@[j as int].1@));
            }
            let key = chars_string(&entries[j].0);
            out.append(key.as_str());
            push_char(&mut out, '=');
            let value = chars_string(&entries[j].1);
            out.append(value.as_str());
            push_char(&mut out, '\n');
            j = j + 1;
            proof {
                assert(out@ =~= head + spec_render_entries(entry_views.take(j as int)));
            }
        }
        proof {
            assert(entry_views.take(entry_views.len() as int) =~= entry_views);
            assert(out@ =~= spec_render_ini(data@.take(i as int + 1)));
        }
        i = i + 1;
    }
    proof {
        assert(data@.take(data@.len() as int) =~= data@);
    }
    out
}

} // verus!
