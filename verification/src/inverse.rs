//! The inverse of a layout's forward table: glyph character to the ordered
//! key-codes that produce it.
//!
//! Only entries whose glyph is exactly one character take part: a
//! multi-character glyph is ambiguous for character-by-character remapping
//! and is dropped. When several key-codes produce the same character, the
//! key-codes are kept in forward-table order, and the remapper later takes
//! the first: the tie-break is the earliest entry of the forward table.

use vstd::prelude::*;

use crate::layout::{spec_fwd, LayoutMap};

verus! {

/// The inverse of a forward table: each single-character glyph maps to the
/// key-codes that produce it, in forward-table order.
pub open spec fn inverse_of(fwd: Seq<(u16, Seq<char>)>) -> Map<char, Seq<u16>>
    decreases fwd.len(),
{
    if fwd.len() == 0 {
        Map::empty()
    } else {
        let prev = inverse_of(fwd.drop_last());
        let vk = fwd.last().0;
        let glyph = fwd.last().1;
        if glyph.len() == 1 {
            let c = glyph[0];
            if prev.contains_key(c) {
                prev.insert(c, prev[c].push(vk))
            } else {
                prev.insert(c, seq![vk])
            }
        } else {
            prev
        }
    }
}

/// The glyph-to-key-codes table of one layout, stored as a vector of pairs
/// with pairwise distinct characters.
pub struct InverseMap {
    pub entries: Vec<(char, Vec<u16>)>,
}

/// The entries of an inverse map as character/key-code-sequence pairs.
pub open spec fn spec_inv_entries(entries: Seq<(char, Vec<u16>)>) -> Seq<(char, Seq<u16>)> {
    entries.map_values(|e: (char, Vec<u16>)| (e.0, e.1@))
}

/// The finite map the entry list denotes.
pub open spec fn map_of(entries: Seq<(char, Seq<u16>)>) -> Map<char, Seq<u16>>
    decreases entries.len(),
{
    if entries.len() == 0 {
        Map::empty()
    } else {
        map_of(entries.drop_last()).insert(entries.last().0, entries.last().1)
    }
}

impl View for InverseMap {
    type V = Map<char, Seq<u16>>;

    open spec fn view(&self) -> Map<char, Seq<u16>> {
        map_of(spec_inv_entries(self.entries@))
    }
}

impl InverseMap {
    /// Each character owns at most one entry.
    pub open spec fn wf(self) -> bool {
        forall|i: int, j: int|
            0 <= i < j < self.entries@.len() ==> (#[trigger] self.entries@[i]).0 != (
            #[trigger] self.entries@[j]).0
    }
}

/// A key of the denoted map is a character of some entry.
proof fn lemma_map_of_contains(entries: Seq<(char, Seq<u16>)>, c: char)
    ensures
        map_of(entries).contains_key(c) <==> exists|k: int|
            0 <= k < entries.len() && (#[trigger] entries[k]).0 == c,
    decreases entries.len(),
{
    if entries.len() > 0 {
        lemma_map_of_contains(entries.drop_last(), c);
        if entries.last().0 == c {
            assert(entries[entries.len() - 1].0 == c);
        } else if map_of(entries).contains_key(c) {
            let k = choose|k: int|
                0 <= k < entries.drop_last().len() && (#[trigger] entries.drop_last()[k]).0 == c;
            assert(entries[k].0 == c);
        } else {
            assert(forall|k: int|
                0 <= k < entries.len() && (#[trigger] entries[k]).0 == c ==> k
                    < entries.drop_last().len() && entries.drop_last()[k].0 == c);
        }
    }
}

/// With pairwise distinct characters, the entry of a character gives its
/// value in the denoted map.
proof fn lemma_map_of_lookup(entries: Seq<(char, Seq<u16>)>, j: int)
    requires
        0 <= j < entries.len(),
        forall|i: int, k: int|
            0 <= i < k < entries.len() ==> (#[trigger] entries[i]).0 != (#[trigger] entries[k]).0,
    ensures
        map_of(entries).contains_key(entries[j].0),
        map_of(entries)[entries[j].0] == entries[j].1,
    decreases entries.len(),
{
    if j == entries.len() - 1 {
    } else {
        lemma_map_of_lookup(entries.drop_last(), j);
        assert(entries.drop_last()[j] == entries[j]);
        assert(entries.last().0 != entries[j].0);
    }
}

/// Updating the value of one entry updates the denoted map at that
/// character alone.
proof fn lemma_map_of_update(entries: Seq<(char, Seq<u16>)>, j: int, v: Seq<u16>)
    requires
        0 <= j < entries.len(),
        forall|i: int, k: int|
            0 <= i < k < entries.len() ==> (#[trigger] entries[i]).0 != (#[trigger] entries[k]).0,
    ensures
        map_of(entries.update(j, (entries[j].0, v))) == map_of(entries).insert(entries[j].0, v),
    decreases entries.len(),
{
    let updated = entries.update(j, (entries[j].0, v));
    if j == entries.len() - 1 {
        assert(updated.drop_last() =~= entries.drop_last());
        assert(updated.last() == (entries[j].0, v));
        assert(map_of(updated) =~= map_of(entries).insert(entries[j].0, v));
    } else {
        lemma_map_of_update(entries.drop_last(), j, v);
        assert(updated.drop_last() =~= entries.drop_last().update(j, (entries[j].0, v)));
        assert(updated.last() == entries.last());
        assert(entries.last().0 != entries[j].0);
        assert(map_of(updated) =~= map_of(entries).insert(entries[j].0, v));
    }
}

impl InverseMap {
    /// The position of the entry for `c`, if one exists.
    fn find_entry(&self, c: char) -> (r: Option<usize>)
        ensures
            match r {
                Some(j) => j < self.entries@.len() && self.entries@[j as int].0 == c,
                None => forall|k: int|
                    0 <= k < self.entries@.len() ==> (#[trigger] self.entries@[k]).0 != c,
            },
    {
        let mut i: usize = 0;
        while i < self.entries.len()
            invariant
                i <= self.entries@.len(),
                forall|k: int| 0 <= k < i ==> (#[trigger] self.entries@[k]).0 != c,
            decreases self.entries@.len() - i,
        {
            if self.entries[i].0 == c {
                return Some(i);
            }
            i = i + 1;
        }
        None
    }

    /// Whether some key-code produces `c` as a single-character glyph.
    pub fn contains(&self, c: char) -> (r: bool)
        requires
            self.wf(),
        ensures
            r == self@.contains_key(c),
    {
        proof {
            lemma_map_of_contains(spec_inv_entries(self.entries@), c);
        }
        match self.find_entry(c) {
            Some(j) => {
                proof {
                    assert(spec_inv_entries(self.entries@)[j as int].0 == c);
                }
                true
            },
            None => {
                proof {
                    assert(forall|k: int|
                        0 <= k < self.entries@.len() ==> (#[trigger] spec_inv_entries(
                            self.entries@,
                        )[k]).0 != c);
                }
                false
            },
        }
    }

    /// The first key-code producing `c`: the earliest forward-table entry
    /// whose glyph is exactly the character `c`.
    pub fn first_code(&self, c: char) -> (r: Option<u16>)
        requires
            self.wf(),
        ensures
            match r {
                Some(vk) => self@.contains_key(c) && self@[c].len() > 0 && vk == self@[c][0],
                None => !self@.contains_key(c) || self@[c].len() == 0,
            },
    {
        proof {
            lemma_map_of_contains(spec_inv_entries(self.entries@), c);
        }
        match self.find_entry(c) {
            Some(j) => {
                proof {
                    lemma_map_of_lookup(spec_inv_entries(self.entries@), j as int);
                }
                if self.entries[j].1.len() > 0 {
                    Some(self.entries[j].1[0])
                } else {
                    None
                }
            },
            None => {
                proof {
                    assert(forall|k: int|
                        0 <= k < self.entries@.len() ==> (#[trigger] spec_inv_entries(
                            self.entries@,
                        )[k]).0 != c);
                }
                None
            },
        }
    }
}

/// Builds the inverse of one layout's forward table. Entries whose glyph is
/// not exactly one character are dropped; key-codes of one character keep
/// forward-table order.
pub fn invert_layout_map(layout_map: &LayoutMap) -> (r: InverseMap)
    ensures
        r@ == inverse_of(layout_map.fwd()),
        r.wf(),
{
    let ghost fwd = layout_map.fwd();
    let mut inv = InverseMap { entries: Vec::new() };
    let mut i: usize = 0;
    while i < layout_map.map.len()
        invariant
            i <= layout_map.map@.len(),
            fwd == layout_map.fwd(),
            fwd.len() == layout_map.map@.len(),
            inv@ == inverse_of(fwd.take(i as int)),
            inv.wf(),
        decreases layout_map.map@.len() - i,
    {
        proof {
            assert(fwd.take(i as int + 1).drop_last() =~= fwd.take(i as int));
            assert(fwd.take(i as int + 1).last() == fwd[i as int]);
        }
        let glyph: &String = &layout_map.map[i].1;
        if glyph.as_str().unicode_len() == 1 {
            let c = glyph.as_str().get_char(0);
            let vk = layout_map.map[i].0;
            proof {
                lemma_map_of_contains(spec_inv_entries(inv.entries@), c);
            }
            match inv.find_entry(c) {
                Some(j) => {
                    let ghost pre = spec_inv_entries(inv.entries@);
                    proof {
                        assert(pre[j as int].0 == c);
                        lemma_map_of_lookup(pre, j as int);
                        lemma_map_of_update(pre, j as int, pre[j as int].1.push(vk));
                    }
                    let pair = inv.entries.remove(j);
                    let mut codes = pair.1;
                    codes.push(vk);
                    inv.entries.insert(j, (pair.0, codes));
                    proof {
                        assert(spec_inv_entries(inv.entries@) =~= pre.update(
                            j as int,
                            (pre[j as int].0, pre[j as int].1.push(vk)),
                        ));
                        assert(forall|k: int|
                            0 <= k < inv.entries@.len() ==> (#[trigger] inv.entries@[k]).0 == (
                            #[trigger] spec_inv_entries(inv.entries@)[k]).0);
                    }
                },
                None => {
                    let ghost pre = spec_inv_entries(inv.entries@);
                    let mut codes: Vec<u16> = Vec::new();
                    codes.push(vk);
                    inv.entries.push((c, codes));
                    proof {
                        assert(codes@ =~= seq![vk]);
                        assert(spec_inv_entries(inv.entries@) =~= pre.push((c, seq![vk])));
                        assert(spec_inv_entries(inv.entries@).drop_last() =~= pre);
                    }
                },
            }
        }
        i = i + 1;
    }
    proof {
        assert(fwd.take(fwd.len() as int) =~= fwd);
    }
    inv
}

/// Builds the inverse map of every layout of a snapshot, in snapshot order.
pub fn invert_layout_maps(layout_maps: &Vec<LayoutMap>) -> (r: Vec<InverseMap>)
    ensures
        r@.len() == layout_maps@.len(),
        forall|k: int|
            0 <= k < r@.len() ==> (#[trigger] r@[k])@ == inverse_of(layout_maps@[k].fwd())
                && r@[k].wf(),
{
    let mut r: Vec<InverseMap> = Vec::new();
    let mut i: usize = 0;
    while i < layout_maps.len()
        invariant
            i <= layout_maps@.len(),
            r@.len() == i,
            forall|k: int|
                0 <= k < i ==> (#[trigger] r@[k])@ == inverse_of(layout_maps@[k].fwd())
                    && r@[k].wf(),
        decreases layout_maps@.len() - i,
    {
        r.push(invert_layout_map(&layout_maps[i]));
        i = i + 1;
    }
    r
}

} // verus!
