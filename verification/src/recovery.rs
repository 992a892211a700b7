//! The recovery panel's model: the rows it lists (sessions left behind by a
//! crash, and workspace promotions cut short), how each is labelled, and how
//! they are grouped.

use vstd::prelude::*;
use crate::i18n::Catalog;
use crate::text::{chars_of, join, joined, views};

verus! {

/// Closing the panel destroys nothing: everything reappears at the next scan.
pub const SCRIM_DISMISSABLE: bool = true;

/// The panel's title.
pub fn title(cat: &Catalog) -> (r: String)
    ensures
        r@ == cat.text("recovery.sheet.title"@),
{
    cat.t("recovery.sheet.title")
}

/// One restored tab of a session left behind.
#[derive(Clone, PartialEq, Eq, Debug)]
pub struct RestoredTab {
    pub table: String,
    pub path: Option<String>,
}

/// A session left behind, as far as the panel shows it.
#[derive(Clone, PartialEq, Eq, Debug)]
pub struct RestoredSession {
    pub tabs: Vec<RestoredTab>,
}

/// One recoverable item.
#[derive(Clone, PartialEq, Eq, Debug)]
pub enum RecoveryRow {
    /// A scratch directory left behind, and the tables it restores.
    Orphan { dir: String, tables: Vec<String> },
    /// A workspace promotion cut short, by its folder.
    Incomplete { root: String },
}

/// The tables a session restores, in its tab order.
pub fn session_tables(s: &RestoredSession) -> (r: Vec<String>)
    ensures
        r@.len() == s.tabs@.len(),
        forall|i: int| 0 <= i < r@.len() ==> (#[trigger] r@[i]) == s.tabs@[i].table,
{
    let mut out: Vec<String> = Vec::new();
    let mut i: usize = 0;
    while i < s.tabs.len()
        invariant
            i <= s.tabs@.len(),
            out@.len() == i,
            forall|k: int| 0 <= k < i ==> (#[trigger] out@[k]) == s.tabs@[k].table,
        decreases s.tabs@.len() - i,
    {
        out.push(s.tabs[i].table.clone());
        i = i + 1;
    }
    out
}

/// A row's label: a session's tables, comma separated; a cut-short
/// promotion's folder and the catalog's suffix.
pub open spec fn label_text(cat: Catalog, row: RecoveryRow) -> Seq<char> {
    match row {
        RecoveryRow::Orphan { tables, .. } => joined(views(tables@), ", "@),
        RecoveryRow::Incomplete { root } => root@ + " "@ + cat.text("recovery.row.incomplete_suffix"@),
    }
}

/// A row's label.
pub fn label_of(cat: &Catalog, row: &RecoveryRow) -> (r: String)
    ensures
        r@ == label_text(*cat, *row),
{
    match row {
        RecoveryRow::Orphan { tables, .. } => join(tables, ", "),
        RecoveryRow::Incomplete { root } => {
            let mut s = root.clone();
            s.append(" ");
            s.append(cat.t("recovery.row.incomplete_suffix").as_str());
            s
        },
    }
}

/// The folder or directory a row is keyed by.
pub fn key_of(row: &RecoveryRow) -> (r: &str)
    ensures
        r@ == (match *row {
            RecoveryRow::Orphan { dir, .. } => dir@,
            RecoveryRow::Incomplete { root } => root@,
        }),
{
    match row {
        RecoveryRow::Orphan { dir, .. } => dir.as_str(),
        RecoveryRow::Incomplete { root } => root.as_str(),
    }
}

/// The positions of the rows of one section, in order: the sessions left
/// behind when `orphans`, the promotions cut short otherwise.
pub fn section(rows: &Vec<RecoveryRow>, orphans: bool) -> (r: Vec<usize>)
    ensures
        forall|k: int| 0 <= k < r@.len() ==> (#[trigger] r@[k]) < rows@.len()
            && (rows@[r@[k] as int] is Orphan) == orphans,
        forall|k: int, m: int| 0 <= k < m < r@.len() ==> r@[k] < r@[m],
        forall|i: int| 0 <= i < rows@.len() && (rows@[i] is Orphan) == orphans ==> exists|k: int| 0 <= k < r@.len() && r@[k] == i,
{
    let mut out: Vec<usize> = Vec::new();
    let mut i: usize = 0;
    while i < rows.len()
        invariant
            i <= rows@.len(),
            forall|k: int| 0 <= k < out@.len() ==> (#[trigger] out@[k]) < i
                && (rows@[out@[k] as int] is Orphan) == orphans,
            forall|k: int, m: int| 0 <= k < m < out@.len() ==> out@[k] < out@[m],
            forall|j: int| 0 <= j < i && (rows@[j] is Orphan) == orphans ==> exists|k: int| 0 <= k < out@.len() && out@[k] == j,
        decreases rows@.len() - i,
    {
        let is_orphan = match &rows[i] {
            RecoveryRow::Orphan { .. } => true,
            RecoveryRow::Incomplete { .. } => false,
        };
        if is_orphan == orphans {
            let ghost before = out@;
            out.push(i);
            assert forall|j: int| 0 <= j < i + 1 && (rows@[j] is Orphan) == orphans implies exists|k: int| 0 <= k < out@.len() && out@[k] == j by {
                if j == i {
                    assert(out@[before.len() as int] == j);
                } else {
                    let k = choose|k: int| 0 <= k < before.len() && before[k] == j;
                    assert(out@[k] == j);
                }
            }
        }
        i = i + 1;
    }
    out
}

/// `a` sorts before `b`, or is `b`: character by character, and a text
/// before any longer text it begins.
pub open spec fn text_le(a: Seq<char>, b: Seq<char>) -> bool
    decreases a.len(),
{
    if a.len() == 0 {
        true
    } else if b.len() == 0 {
        false
    } else if (a[0] as u32) != (b[0] as u32) {
        (a[0] as u32) < (b[0] as u32)
    } else {
        text_le(a.skip(1), b.skip(1))
    }
}

/// Of two texts, one sorts before the other.
pub proof fn lemma_text_le_total(a: Seq<char>, b: Seq<char>)
    ensures
        text_le(a, b) || text_le(b, a),
    decreases a.len(),
{
    if a.len() > 0 && b.len() > 0 && (a[0] as u32) == (b[0] as u32) {
        lemma_text_le_total(a.skip(1), b.skip(1));
    }
}

/// Sorting before is transitive.
pub proof fn lemma_text_le_trans(a: Seq<char>, b: Seq<char>, c: Seq<char>)
    requires
        text_le(a, b),
        text_le(b, c),
    ensures
        text_le(a, c),
    decreases a.len(),
{
    if a.len() > 0 && b.len() > 0 && c.len() > 0 && (a[0] as u32) == (b[0] as u32) && (b[0] as u32) == (c[0] as u32) {
        lemma_text_le_trans(a.skip(1), b.skip(1), c.skip(1));
    }
}

/// Whether `a` sorts before `b`, or is `b`.
pub fn sorts_before(a: &str, b: &str) -> (r: bool)
    ensures
        r == text_le(a@, b@),
{
    let va = chars_of(a);
    let vb = chars_of(b);
    let mut i: usize = 0;
    assert(va@.skip(0) =~= va@);
    assert(vb@.skip(0) =~= vb@);
    loop
        invariant
            va@ == a@,
            vb@ == b@,
            i <= va@.len(),
            i <= vb@.len(),
            text_le(a@, b@) == text_le(va@.skip(i as int), vb@.skip(i as int)),
        decreases va@.len() - i,
    {
        if i == va.len() {
            return true;
        }
        if i == vb.len() {
            return false;
        }
        assert(va@.skip(i as int)[0] == va@[i as int]);
        assert(vb@.skip(i as int)[0] == vb@[i as int]);
        if (va[i] as u32) != (vb[i] as u32) {
            return (va[i] as u32) < (vb[i] as u32);
        }
        assert(va@.skip(i as int).skip(1) =~= va@.skip(i + 1));
        assert(vb@.skip(i as int).skip(1) =~= vb@.skip(i + 1));
        i = i + 1;
    }
}

/// Whether the sessions found are in order of their directories.
pub open spec fn by_dir(s: Seq<(String, Vec<String>)>) -> bool {
    forall|i: int, j: int| 0 <= i < j < s.len() ==> text_le(s[i].0@, s[j].0@)
}

/// Putting `x` where every entry before it sorts before it, and the entry
/// after it does not, keeps the list in order.
proof fn lemma_insert_by_dir(s: Seq<(String, Vec<String>)>, j: int, x: (String, Vec<String>))
    requires
        by_dir(s),
        0 <= j <= s.len(),
        forall|k: int| 0 <= k < j ==> text_le((#[trigger] s[k]).0@, x.0@),
        j < s.len() ==> text_le(x.0@, s[j].0@),
    ensures
        by_dir(s.insert(j, x)),
{
    let t = s.insert(j, x);
    s.insert_ensures(j, x);
    assert forall|a: int, b: int| 0 <= a < b < t.len() implies text_le(t[a].0@, t[b].0@) by {
        if b < j {
        } else if a < j && b == j {
        } else if a < j && b > j {
            assert(t[b] == s[b - 1]);
            lemma_text_le_trans(t[a].0@, x.0@, s[j].0@);
            if b - 1 > j {
                lemma_text_le_trans(t[a].0@, s[j].0@, s[b - 1].0@);
            }
        } else if a == j {
            assert(t[b] == s[b - 1]);
            if b - 1 > j {
                lemma_text_le_trans(x.0@, s[j].0@, s[b - 1].0@);
            }
        } else {
            assert(t[a] == s[a - 1]);
            assert(t[b] == s[b - 1]);
        }
    }
}

/// Moving the last entry of `rest` into `out` keeps what the two hold
/// together.
proof fn lemma_move_keeps_multiset(
    out: Seq<(String, Vec<String>)>,
    rest: Seq<(String, Vec<String>)>,
    j: int,
    x: (String, Vec<String>),
)
    requires
        0 <= j <= out.len(),
    ensures
        out.insert(j, x).to_multiset().add(rest.to_multiset()) == out.to_multiset().add(rest.push(x).to_multiset()),
{
    vstd::seq_lib::to_multiset_build(rest, x);
    vstd::seq_lib::to_multiset_insert(out, j, x);
    assert(out.insert(j, x).to_multiset().add(rest.to_multiset()) =~= out.to_multiset().add(rest.push(x).to_multiset()));
}

/// The sessions found, each a directory and its tables, put in order of
/// their directories, so a rescan lists them the same way.
pub fn sort_by_dir(found: Vec<(String, Vec<String>)>) -> (r: Vec<(String, Vec<String>)>)
    ensures
        r@.to_multiset() == found@.to_multiset(),
        by_dir(r@),
{
    let mut rest = found;
    let mut out: Vec<(String, Vec<String>)> = Vec::new();
    proof {
        broadcast use vstd::seq_lib::group_to_multiset_ensures;
        assert(out@.to_multiset().add(rest@.to_multiset()) =~= found@.to_multiset());
    }
    while rest.len() > 0
        invariant
            out@.to_multiset().add(rest@.to_multiset()) == found@.to_multiset(),
            by_dir(out@),
        decreases rest@.len(),
    {
        let ghost before_rest = rest@;
        let x = rest.pop().unwrap();
        assert(before_rest == rest@.push(x));
        let mut j: usize = 0;
        while j < out.len() && sorts_before(out[j].0.as_str(), x.0.as_str())
            invariant
                j <= out@.len(),
                forall|k: int| 0 <= k < j ==> text_le((#[trigger] out@[k]).0@, x.0@),
            decreases out@.len() - j,
        {
            j = j + 1;
        }
        let ghost before_out = out@;
        proof {
            if j < out@.len() {
                lemma_text_le_total(out@[j as int].0@, x.0@);
            }
            lemma_insert_by_dir(before_out, j as int, x);
            lemma_move_keeps_multiset(before_out, rest@, j as int, x);
        }
        out.insert(j, x);
    }
    proof {
        broadcast use vstd::seq_lib::group_to_multiset_ensures;
        assert(rest@.to_multiset().len() == 0);
        assert(out@.to_multiset().add(rest@.to_multiset()) =~= out@.to_multiset());
    }
    out
}

/// Every recoverable item, in the panel's order: the sessions left behind,
/// in order of their directories, then the promotions cut short, as given.
pub fn recovery_rows(found: Vec<(String, Vec<String>)>, incomplete: &Vec<String>) -> (r: Vec<RecoveryRow>)
    ensures
        r@.len() == found@.len() + incomplete@.len(),
        exists|s: Seq<(String, Vec<String>)>|
            #![trigger by_dir(s)]
            s.to_multiset() == found@.to_multiset() && by_dir(s) && s.len() == found@.len()
            && forall|k: int| 0 <= k < s.len() ==> (#[trigger] r@[k]) == (RecoveryRow::Orphan { dir: s[k].0, tables: s[k].1 }),
        forall|k: int| 0 <= k < incomplete@.len() ==> (#[trigger] r@[found@.len() + k]) == (RecoveryRow::Incomplete { root: incomplete@[k] }),
{
    broadcast use vstd::seq_lib::group_to_multiset_ensures;
    let mut src = sort_by_dir(found);
    let ghost s = src@;
    let ghost n = s.len();
    proof {
        assert(s.to_multiset().len() == found@.to_multiset().len());
    }
    let mut rev: Vec<(String, Vec<String>)> = Vec::new();
    while src.len() > 0
        invariant
            s.len() == n,
            src@.len() <= n,
            src@ == s.take(src@.len() as int),
            rev@.len() == n - src@.len(),
            forall|i: int| 0 <= i < rev@.len() ==> (#[trigger] rev@[i]) == s[n - 1 - i],
        decreases src@.len(),
    {
        let ghost m = src@.len();
        let x = src.pop().unwrap();
        assert(x == s[m - 1]);
        assert(src@ =~= s.take(m - 1));
        rev.push(x);
    }
    let mut rows: Vec<RecoveryRow> = Vec::new();
    while rev.len() > 0
        invariant
            s.len() == n,
            rev@.len() <= n,
            rows@.len() == n - rev@.len(),
            forall|i: int| 0 <= i < rev@.len() ==> (#[trigger] rev@[i]) == s[n - 1 - i],
            forall|k: int| 0 <= k < rows@.len() ==> (#[trigger] rows@[k]) == (RecoveryRow::Orphan { dir: s[k].0, tables: s[k].1 }),
        decreases rev@.len(),
    {
        let ghost m = rev@.len();
        let x = rev.pop().unwrap();
        assert(x == s[n - m]);
        let (dir, tables) = x;
        rows.push(RecoveryRow::Orphan { dir, tables });
    }
    let mut k: usize = 0;
    while k < incomplete.len()
        invariant
            s.len() == n,
            n == found@.len(),
            k <= incomplete@.len(),
            rows@.len() == n + k,
            forall|q: int| 0 <= q < n ==> (#[trigger] rows@[q]) == (RecoveryRow::Orphan { dir: s[q].0, tables: s[q].1 }),
            forall|q: int| 0 <= q < k ==> (#[trigger] rows@[n + q]) == (RecoveryRow::Incomplete { root: incomplete@[q] }),
        decreases incomplete@.len() - k,
    {
        let root = incomplete[k].clone();
        rows.push(RecoveryRow::Incomplete { root });
        k = k + 1;
    }
    assert(by_dir(s));
    rows
}

} // verus!
