//! The data model of the engine: a keyboard layout, its writing direction,
//! and its key-code-to-glyph table.
//!
//! A `LayoutMap` stores its forward table as a vector of pairs so that the
//! order of the entries, and with it every tie-break in the engine, is a
//! deterministic function of the snapshot value.

use vstd::prelude::*;

verus! {

/// Writing direction of a keyboard layout.
#[derive(Clone, Copy, Debug, PartialEq, Eq, Structural)]
pub enum KeyboardDirection {
    LTR,
    RTL,
}

/// One installed keyboard layout: an identifying label and its writing
/// direction. Identity for rotation purposes is the label.
#[derive(Debug, Clone, PartialEq, Eq)]
pub struct KeyboardLayout {
    pub lang_name: String,
    pub direction: KeyboardDirection,
}

/// A layout together with its forward table from key-code to the glyph that
/// key produces under the layout.
#[derive(Debug, Clone, PartialEq, Eq)]
pub struct LayoutMap {
    pub layout: KeyboardLayout,
    pub map: Vec<(u16, String)>,
}

/// The forward table as a sequence of key-code/glyph-characters pairs.
pub open spec fn spec_fwd(entries: Seq<(u16, String)>) -> Seq<(u16, Seq<char>)> {
    entries.map_values(|e: (u16, String)| (e.0, e.1@))
}

impl LayoutMap {
    /// The forward table of this layout, as character sequences.
    pub open spec fn fwd(self) -> Seq<(u16, Seq<char>)> {
        spec_fwd(self.map@)
    }

    /// A well-formed forward table maps each key-code at most once.
    pub open spec fn wf(self) -> bool {
        forall|i: int, j: int|
            0 <= i < j < self.map@.len() ==> (#[trigger] self.map@[i]).0 != (
            #[trigger] self.map@[j]).0
    }
}

/// The glyph the forward table assigns to `vk`: the first entry with that
/// key-code, if any.
pub open spec fn spec_fwd_lookup(fwd: Seq<(u16, Seq<char>)>, vk: u16) -> Option<Seq<char>>
    decreases fwd.len(),
{
    if fwd.len() == 0 {
        None
    } else if fwd.first().0 == vk {
        Some(fwd.first().1)
    } else {
        spec_fwd_lookup(fwd.drop_first(), vk)
    }
}

/// Looks `vk` up in a forward table, returning the glyph of the first entry
/// with that key-code.
pub fn fwd_lookup<'a>(map: &'a Vec<(u16, String)>, vk: u16) -> (r: Option<&'a String>)
    ensures
        match r {
            Some(g) => spec_fwd_lookup(spec_fwd(map@), vk) == Some(g@),
            None => spec_fwd_lookup(spec_fwd(map@), vk) is None,
        },
{
    let ghost fwd = spec_fwd(map@);
    proof {
        assert(fwd.skip(0) =~= fwd);
    }
    let mut i: usize = 0;
    while i < map.len()
        invariant
            i <= map@.len(),
            fwd == spec_fwd(map@),
            fwd.len() == map@.len(),
            spec_fwd_lookup(fwd, vk) == spec_fwd_lookup(fwd.skip(i as int), vk),
        decreases map@.len() - i,
    {
        proof {
            assert(fwd.skip(i as int).first() == fwd[i as int]);
            assert(fwd.skip(i as int).drop_first() =~= fwd.skip(i as int + 1));
        }
        if map[i].0 == vk {
            return Some(&map[i].1);
        }
        i = i + 1;
    }
    proof {
        assert(fwd.skip(map@.len() as int) =~= Seq::<(u16, Seq<char>)>::empty());
    }
    None
}

} // verus!
