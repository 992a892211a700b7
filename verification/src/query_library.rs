//! The query-history list: one line per run, newest first, with an active
//! row that the arrow keys move and Enter loads.

use vstd::prelude::*;
use crate::i18n::Catalog;
use crate::text::{chars_of, decimal, decimal_string, string_of_range, trim, trim_bounds};

verus! {

/// One run in the history.
#[derive(Clone, PartialEq, Eq, Debug)]
pub struct HistoryEntry {
    pub sql: String,
    pub ok: bool,
    pub elapsed_ms: u64,
}

/// Preview width, in characters.
pub const PREVIEW_CHARS: usize = 80;

/// The text before the first line feed, or all of it.
pub open spec fn before_newline(s: Seq<char>) -> Seq<char>
    decreases s.len(),
{
    if s.len() == 0 {
        s
    } else if s[0] == '\n' {
        Seq::empty()
    } else {
        seq![s[0]] + before_newline(s.drop_first())
    }
}

/// The first line of `sql`, trimmed, cut to `max` characters with an
/// ellipsis when longer.
pub open spec fn first_line_text(sql: Seq<char>, max: nat) -> Seq<char> {
    let line = trim(before_newline(sql));
    if line.len() > max { line.take(max as int).push('…') } else { line }
}

/// The first line of `sql`, cut to `max` characters (never inside one) with
/// an ellipsis.
pub fn first_line(sql: &str, max: usize) -> (r: String)
    ensures
        r@ == first_line_text(sql@, max as nat),
{
    let v = chars_of(sql);
    let mut end: usize = 0;
    assert(v@.take(0) + before_newline(v@.skip(0)) =~= before_newline(v@)) by {
        assert(v@.skip(0) =~= v@);
    }
    while end < v.len() && v[end] != '\n'
        invariant
            end <= v@.len(),
            before_newline(v@) == v@.take(end as int) + before_newline(v@.skip(end as int)),
        decreases v@.len() - end,
    {
        assert(v@.skip(end as int).drop_first() =~= v@.skip(end + 1));
        assert(v@.take(end + 1) =~= v@.take(end as int) + seq![v@[end as int]]);
        end = end + 1;
    }
    assert(before_newline(v@.skip(end as int)) =~= Seq::<char>::empty());
    assert(v@.take(end as int) + Seq::<char>::empty() =~= v@.take(end as int));
    let line = string_of_range(&v, 0, end);
    let lv = chars_of(line.as_str());
    assert(lv@ =~= v@.take(end as int));
    let (a, b) = trim_bounds(&lv);
    if b - a > max {
        let mut s = string_of_range(&lv, a, a + max);
        s.append("…");
        proof { reveal_strlit("…"); }
        assert(s@ =~= lv@.subrange(a as int, b as int).take(max as int).push('…'));
        s
    } else {
        string_of_range(&lv, a, b)
    }
}

/// The `ok · 12 ms` trailer of a run.
pub open spec fn outcome_text(cat: Catalog, e: HistoryEntry) -> Seq<char> {
    cat.text(if e.ok { "sql.history.ok"@ } else { "sql.history.err"@ }) + " · "@ + decimal(e.elapsed_ms as nat) + " ms"@
}

/// The `ok · 12 ms` trailer of a run.
pub fn outcome_meta(cat: &Catalog, entry: &HistoryEntry) -> (r: String)
    ensures
        r@ == outcome_text(*cat, *entry),
{
    let mut s = if entry.ok { cat.t("sql.history.ok") } else { cat.t("sql.history.err") };
    s.append(" · ");
    s.append(decimal_string(entry.elapsed_ms).as_str());
    s.append(" ms");
    s
}

/// The row shown at display position `i`: history is stored oldest first
/// and shown newest first.
pub open spec fn shown_at(entries: Seq<HistoryEntry>, i: int) -> HistoryEntry {
    entries[entries.len() - 1 - i]
}

/// The active row as shown: the one asked for, but never past the last.
pub open spec fn clamped(active: int, len: int) -> int {
    if len == 0 { 0 } else if active < len - 1 { active } else { len - 1 }
}

/// The history list's keyboard state: which displayed row is active.
pub struct HistoryList {
    pub active: usize,
}

impl HistoryList {
    /// The first (newest) row active.
    pub fn new() -> (l: Self)
        ensures
            l.active == 0,
    {
        HistoryList { active: 0 }
    }

    /// The active row among `len` shown.
    pub fn active_ix(&self, len: usize) -> (r: usize)
        ensures
            r == clamped(self.active as int, len as int),
    {
        if len == 0 { 0 } else if self.active < len - 1 { self.active } else { len - 1 }
    }

    /// Arrow down: the next row, stopping at the last.
    pub fn down(&mut self, len: usize)
        ensures
            final(self).active == clamped(clamped(old(self).active as int, len as int) + 1, len as int),
    {
        let a = self.active_ix(len);
        self.active = if len == 0 { 0 } else if a + 1 < len - 1 { a + 1 } else { len - 1 };
    }

    /// Arrow up: the previous row, stopping at the first.
    pub fn up(&mut self, len: usize)
        ensures
            final(self).active == (if clamped(old(self).active as int, len as int) > 0 {
                clamped(old(self).active as int, len as int) - 1
            } else {
                0
            }),
    {
        let a = self.active_ix(len);
        self.active = if a > 0 { a - 1 } else { 0 };
    }

    /// Enter: the SQL of the active row, if there is any row.
    pub fn pick(&self, entries: &Vec<HistoryEntry>) -> (r: Option<String>)
        ensures
            entries@.len() == 0 ==> r is None,
            entries@.len() > 0 ==> r == Some(shown_at(entries@, clamped(self.active as int, entries@.len() as int)).sql),
    {
        let n = entries.len();
        if n == 0 {
            return None;
        }
        let i = self.active_ix(n);
        Some(entries[n - 1 - i].sql.clone())
    }
}

} // verus!
