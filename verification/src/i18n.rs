//! The text the interface shows, looked up by key.
//!
//! A [`Catalog`] holds the translated strings of one language. Looking up a
//! key it does not hold gives the key itself, so a missing translation shows
//! as its key rather than as nothing.

use vstd::prelude::*;
use crate::text::{str_eq, chars_of, string_of};

verus! {

/// One language's strings, by key.
pub struct Catalog {
    entries: Vec<(String, String)>,
}

/// The text the most recent entry for `key` holds, if any.
pub open spec fn lookup(entries: Seq<(Seq<char>, Seq<char>)>, key: Seq<char>) -> Option<Seq<char>>
    decreases entries.len(),
{
    if entries.len() == 0 {
        None
    } else if entries.last().0 == key {
        Some(entries.last().1)
    } else {
        lookup(entries.drop_last(), key)
    }
}

/// What a catalog shows for `key`: its text, or the key itself.
pub open spec fn shown(entries: Seq<(Seq<char>, Seq<char>)>, key: Seq<char>) -> Seq<char> {
    match lookup(entries, key) {
        Some(text) => text,
        None => key,
    }
}

impl View for Catalog {
    type V = Seq<(Seq<char>, Seq<char>)>;

    closed spec fn view(&self) -> Seq<(Seq<char>, Seq<char>)> {
        self.entries@.map_values(|e: (String, String)| (e.0@, e.1@))
    }
}

impl Catalog {
    /// The text shown for `key`.
    pub open spec fn text(&self, key: Seq<char>) -> Seq<char> {
        shown(self@, key)
    }

    /// A catalog with no strings: every key shows as itself.
    pub fn new() -> (c: Self)
        ensures
            c@ == Seq::<(Seq<char>, Seq<char>)>::empty(),
    {
        let c = Catalog { entries: Vec::new() };
        assert(c@ =~= Seq::<(Seq<char>, Seq<char>)>::empty());
        c
    }

    /// Give `key` the text `text`, in place of any it had.
    pub fn insert(&mut self, key: &str, text: &str)
        ensures
            final(self)@ == old(self)@.push((key@, text@)),
    {
        let k = string_of(&chars_of(key));
        let t = string_of(&chars_of(text));
        self.entries.push((k, t));
        assert(self@ =~= old(self)@.push((key@, text@)));
    }

    /// The text for `key`, or `key` itself when the catalog has none.
    pub fn t(&self, key: &str) -> (r: String)
        ensures
            r@ == self.text(key@),
    {
        let mut i = self.entries.len();
        assert(self@.take(i as int) =~= self@);
        while i > 0
            invariant
                i <= self.entries@.len(),
                shown(self@, key@) == shown(self@.take(i as int), key@),
            decreases i,
        {
            let ghost pre = self@.take(i as int);
            assert(pre.drop_last() == self@.take(i - 1));
            assert(pre.last() == (self.entries@[i - 1].0@, self.entries@[i - 1].1@));
            if str_eq(self.entries[i - 1].0.as_str(), key) {
                return self.entries[i - 1].1.clone();
            }
            i = i - 1;
        }
        string_of(&chars_of(key))
    }
}

} // verus!
