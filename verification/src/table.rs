//! The fonts that a conversion can choose from, by key.

use crate::font::Font;
use vstd::prelude::*;

verus! {

/// The map that a list of keyed fonts stands for: a later entry replaces an
/// earlier one with the same key.
pub open spec fn entries_map<'a>(entries: Seq<(String, Font<'a>)>) -> Map<Seq<char>, Font<'a>>
    decreases entries.len(),
{
    if entries.len() == 0 {
        Map::empty()
    } else {
        entries_map(entries.drop_last()).insert(entries.last().0@, entries.last().1)
    }
}

proof fn lemma_entry_found<'a>(entries: Seq<(String, Font<'a>)>, key: Seq<char>, i: int)
    requires
        0 <= i < entries.len(),
        entries[i].0@ == key,
        forall|k: int| i < k < entries.len() ==> (#[trigger] entries[k]).0@ != key,
    ensures
        entries_map(entries).contains_key(key),
        entries_map(entries)[key] == entries[i].1,
    decreases entries.len(),
{
    if i < entries.len() - 1 {
        assert(entries[entries.len() - 1].0@ != key);
        let front = entries.drop_last();
        assert forall|k: int| i < k < front.len() implies (#[trigger] front[k]).0@ != key by {
            assert(front[k] == entries[k]);
        }
        lemma_entry_found(front, key, i);
    }
}

proof fn lemma_entry_absent<'a>(entries: Seq<(String, Font<'a>)>, key: Seq<char>)
    requires
        forall|k: int| 0 <= k < entries.len() ==> (#[trigger] entries[k]).0@ != key,
    ensures
        !entries_map(entries).contains_key(key),
    decreases entries.len(),
{
    if entries.len() > 0 {
        assert(entries[entries.len() - 1].0@ != key);
        let front = entries.drop_last();
        assert forall|k: int| 0 <= k < front.len() implies (#[trigger] front[k]).0@ != key by {
            assert(front[k] == entries[k]);
        }
        lemma_entry_absent(front, key);
    }
}

/// Fonts by key. A conversion only reads it.
pub struct FontTable<'a> {
    entries: Vec<(String, Font<'a>)>,
}

impl<'a> View for FontTable<'a> {
    type V = Map<Seq<char>, Font<'a>>;

    closed spec fn view(&self) -> Map<Seq<char>, Font<'a>> {
        entries_map(self.entries@)
    }
}

impl<'a> FontTable<'a> {
    /// A table without fonts.
    pub fn new() -> (table: FontTable<'a>)
        ensures
            table@ == Map::<Seq<char>, Font<'a>>::empty(),
    {
        FontTable { entries: Vec::new() }
    }

    /// Puts a font under a key, in place of the one that was there.
    pub fn insert(&mut self, key: String, font: Font<'a>)
        ensures
            final(self)@ == old(self)@.insert(key@, font),
    {
        self.entries.push((key, font));
        assert(self.entries@.drop_last() =~= old(self).entries@);
    }

    /// The font under a key, if there is one.
    pub fn get(&self, key: &String) -> (r: Option<&Font<'a>>)
        ensures
            match r {
                Some(font) => self@.contains_key(key@) && self@[key@] == *font,
                None => !self@.contains_key(key@),
            },
    {
        let mut i = self.entries.len();
        while i > 0
            invariant
                i <= self.entries@.len(),
                forall|k: int| i <= k < self.entries@.len() ==> (#[trigger] self.entries@[k]).0@ != key@,
            decreases i,
        {
            i -= 1;
            if self.entries[i].0 == *key {
                proof {
                    lemma_entry_found(self.entries@, key@, i as int);
                }
                return Some(&self.entries[i].1);
            }
        }
        proof {
            lemma_entry_absent(self.entries@, key@);
        }
        None
    }
}

} // verus!
