//! Tab-separated text, the form a block of cells takes on the clipboard:
//! cells split by tabs, rows by CRLF, as spreadsheets emit and read.

use vstd::prelude::*;
use crate::text::{all_ascii, chars_of, joined, join, string_of, views};

verus! {

/// The pieces of `s` between the occurrences of `c`, as `str::split` gives
/// them: always at least one, empty ones included.
pub open spec fn split_on(s: Seq<char>, c: char) -> Seq<Seq<char>>
    decreases s.len(),
{
    if s.len() == 0 {
        seq![Seq::empty()]
    } else {
        let rest = split_on(s.drop_last(), c);
        if s.last() == c {
            rest.push(Seq::empty())
        } else {
            rest.update(rest.len() - 1, rest.last().push(s.last()))
        }
    }
}

/// `split_on` never gives an empty list.
pub proof fn lemma_split_nonempty(s: Seq<char>, c: char)
    ensures
        split_on(s, c).len() >= 1,
    decreases s.len(),
{
    if s.len() > 0 {
        lemma_split_nonempty(s.drop_last(), c);
    }
}

/// The pieces of text all in ASCII are all in ASCII.
pub proof fn lemma_split_ascii(s: Seq<char>, c: char)
    requires
        all_ascii(s),
    ensures
        forall|i: int| 0 <= i < split_on(s, c).len() ==> all_ascii(#[trigger] split_on(s, c)[i]),
    decreases s.len(),
{
    if s.len() > 0 {
        let d = s.drop_last();
        assert(all_ascii(d)) by {
            assert forall|i: int| 0 <= i < d.len() implies (d[i] as u32) < 128 by {
                assert(d[i] == s[i]);
            }
        }
        lemma_split_ascii(d, c);
        lemma_split_nonempty(d, c);
        let rest = split_on(d, c);
        if s.last() != c {
            let l = rest.last().push(s.last());
            assert(all_ascii(rest[rest.len() - 1]));
            assert((s[s.len() - 1] as u32) < 128);
            assert(all_ascii(l)) by {
                assert forall|i: int| 0 <= i < l.len() implies (l[i] as u32) < 128 by {
                    if i < l.len() - 1 {
                        assert(l[i] == rest[rest.len() - 1][i]);
                    }
                }
            }
            assert forall|i: int| 0 <= i < split_on(s, c).len() implies all_ascii(#[trigger] split_on(s, c)[i]) by {
                if i < rest.len() - 1 {
                    assert(split_on(s, c)[i] == rest[i]);
                }
            }
        } else {
            assert forall|i: int| 0 <= i < split_on(s, c).len() implies all_ascii(#[trigger] split_on(s, c)[i]) by {
                if i < rest.len() {
                    assert(split_on(s, c)[i] == rest[i]);
                } else {
                    assert(split_on(s, c)[i] =~= Seq::<char>::empty());
                }
            }
        }
    }
}

/// A row's text: its cells with a tab between each two.
pub open spec fn row_text(row: Seq<Seq<char>>) -> Seq<char> {
    joined(row, seq!['\t'])
}

/// A block's text: its rows' texts with CRLF between each two.
pub open spec fn tsv_text(grid: Seq<Seq<Seq<char>>>) -> Seq<char> {
    joined(grid.map_values(|r: Seq<Seq<char>>| row_text(r)), seq!['\r', '\n'])
}

/// The text of each cell of a block.
pub open spec fn grid_views(grid: Seq<Vec<String>>) -> Seq<Seq<Seq<char>>> {
    grid.map_values(|r: Vec<String>| views(r@))
}

/// A line without the carriage return that ends it, if one does.
pub open spec fn strip_cr(line: Seq<char>) -> Seq<char> {
    if line.len() > 0 && line.last() == '\r' { line.drop_last() } else { line }
}

/// The lines of a block's text; a line end at the very end starts no row.
pub open spec fn body_lines(s: Seq<char>) -> Seq<Seq<char>> {
    let ls = split_on(s, '\n');
    if ls.len() > 1 && ls.last().len() == 0 { ls.drop_last() } else { ls }
}

/// The cells a block's text reads as: one row per line, less its carriage
/// return, split at each tab.
pub open spec fn tsv_cells(s: Seq<char>) -> Seq<Seq<Seq<char>>> {
    body_lines(s).map_values(|l: Seq<char>| split_on(strip_cr(l), '\t'))
}

/// A cell a block can carry through its text unchanged: no tab, no line
/// break.
pub open spec fn plain_cell(cell: Seq<char>) -> bool {
    !cell.contains('\t') && !cell.contains('\n') && !cell.contains('\r')
}

proof fn lemma_split_push(s: Seq<char>, x: char, c: char)
    ensures
        split_on(s.push(x), c) == (if x == c {
            split_on(s, c).push(Seq::empty())
        } else {
            split_on(s, c).update(split_on(s, c).len() - 1, split_on(s, c).last().push(x))
        }),
{
    assert(s.push(x).drop_last() =~= s);
}

proof fn lemma_split_append(a: Seq<char>, b: Seq<char>, c: char)
    ensures
        split_on(a + seq![c] + b, c) == split_on(a, c) + split_on(b, c),
    decreases b.len(),
{
    if b.len() == 0 {
        assert(a + seq![c] + b =~= a.push(c));
        lemma_split_push(a, c, c);
        assert(split_on(a, c).push(Seq::empty()) =~= split_on(a, c) + split_on(b, c));
    } else {
        let b0 = b.drop_last();
        let x = b.last();
        lemma_split_append(a, b0, c);
        assert(a + seq![c] + b =~= (a + seq![c] + b0).push(x));
        assert(b =~= b0.push(x));
        lemma_split_push(a + seq![c] + b0, x, c);
        lemma_split_push(b0, x, c);
        lemma_split_nonempty(b0, c);
        let l = split_on(a, c);
        let r = split_on(b0, c);
        if x == c {
            assert((l + r).push(Seq::empty()) =~= l + r.push(Seq::empty()));
        } else {
            assert((l + r).update((l + r).len() - 1, (l + r).last().push(x))
                =~= l + r.update(r.len() - 1, r.last().push(x)));
        }
    }
}

proof fn lemma_split_plain(s: Seq<char>, c: char)
    requires
        !s.contains(c),
    ensures
        split_on(s, c) == seq![s],
    decreases s.len(),
{
    if s.len() > 0 {
        let s0 = s.drop_last();
        assert(!s0.contains(c)) by {
            if s0.contains(c) {
                let k = choose|k: int| 0 <= k < s0.len() && s0[k] == c;
                assert(s[k] == c);
            }
        }
        lemma_split_plain(s0, c);
        assert(s.last() != c) by {
            assert(s[s.len() - 1] == s.last());
        }
        assert(s0.push(s.last()) =~= s);
        assert(seq![s0].update(0, s) =~= seq![s]);
    } else {
        assert(s =~= Seq::<char>::empty());
    }
}

pub(crate) proof fn lemma_split_joined(parts: Seq<Seq<char>>, c: char)
    requires
        parts.len() >= 1,
        forall|i: int| 0 <= i < parts.len() ==> !(#[trigger] parts[i]).contains(c),
    ensures
        split_on(joined(parts, seq![c]), c) == parts,
    decreases parts.len(),
{
    if parts.len() == 1 {
        lemma_split_plain(parts[0], c);
        assert(seq![parts[0]] =~= parts);
    } else {
        let p0 = parts.drop_last();
        lemma_split_joined(p0, c);
        lemma_split_append(joined(p0, seq![c]), parts.last(), c);
        lemma_split_plain(parts.last(), c);
        assert(p0 + seq![parts.last()] =~= parts);
    }
}

proof fn lemma_joined_free(parts: Seq<Seq<char>>, sep: Seq<char>, x: char)
    requires
        !sep.contains(x),
        forall|i: int| 0 <= i < parts.len() ==> !(#[trigger] parts[i]).contains(x),
    ensures
        !joined(parts, sep).contains(x),
    decreases parts.len(),
{
    if parts.len() > 1 {
        let p0 = parts.drop_last();
        lemma_joined_free(p0, sep, x);
        let j = joined(p0, sep);
        let last = parts.last();
        assert(!last.contains(x)) by { assert(parts[parts.len() - 1] == last); }
        if (j + sep + last).contains(x) {
            let k = choose|k: int| 0 <= k < (j + sep + last).len() && (j + sep + last)[k] == x;
            if k < j.len() {
                assert(j[k] == x);
            } else if k < j.len() + sep.len() {
                assert(sep[k - j.len()] == x);
            } else {
                assert(last[k - j.len() - sep.len()] == x);
            }
        }
    } else if parts.len() == 1 {
        assert(parts[0] == joined(parts, sep));
    }
}

proof fn lemma_joined_empty(parts: Seq<Seq<char>>, sep: Seq<char>)
    requires
        parts.len() >= 1,
        sep.len() > 0,
        joined(parts, sep).len() == 0,
    ensures
        parts.len() == 1,
        parts[0].len() == 0,
{
}

/// The lines of `rows` joined by CRLF, as a split at line feeds sees them:
/// each but the last keeps its carriage return.
pub open spec fn with_cr(rows: Seq<Seq<char>>) -> Seq<Seq<char>> {
    Seq::new(rows.len(), |i: int| if i < rows.len() - 1 { rows[i].push('\r') } else { rows[i] })
}

proof fn lemma_split_crlf(rows: Seq<Seq<char>>)
    requires
        rows.len() >= 1,
        forall|i: int| 0 <= i < rows.len() ==> !(#[trigger] rows[i]).contains('\n'),
    ensures
        split_on(joined(rows, seq!['\r', '\n']), '\n') == with_cr(rows),
    decreases rows.len(),
{
    if rows.len() == 1 {
        lemma_split_plain(rows[0], '\n');
        assert(seq![rows[0]] =~= with_cr(rows));
    } else {
        let r0 = rows.drop_last();
        let j = joined(r0, seq!['\r', '\n']);
        lemma_split_crlf(r0);
        assert(j + seq!['\r', '\n'] + rows.last() =~= j.push('\r') + seq!['\n'] + rows.last());
        lemma_split_append(j.push('\r'), rows.last(), '\n');
        lemma_split_push(j, '\r', '\n');
        lemma_split_plain(rows.last(), '\n');
        let w = with_cr(r0);
        assert(w.update(w.len() - 1, w.last().push('\r')) + seq![rows.last()] =~= with_cr(rows));
    }
}

/// A block its text carries unchanged: it has a row, each row has a cell,
/// no cell holds a tab or line break, and a last row of several is not one
/// empty cell (the text's final line end would leave that line out).
pub open spec fn carried(g: Seq<Seq<Seq<char>>>) -> bool {
    &&& g.len() >= 1
    &&& forall|i: int| 0 <= i < g.len() ==> (#[trigger] g[i]).len() >= 1
    &&& forall|i: int, j: int| 0 <= i < g.len() && 0 <= j < g[i].len() ==> plain_cell(#[trigger] g[i][j])
    &&& (g.len() == 1 || g.last() != seq![Seq::<char>::empty()])
}

/// A block whose rows each have a cell and whose cells hold no tab or line
/// break reads back from its text as itself; the one exception is a last row
/// of several that is a single empty cell, whose line the text's final line
/// end leaves out.
pub proof fn lemma_tsv_round_trip(g: Seq<Seq<Seq<char>>>)
    requires
        carried(g),
    ensures
        tsv_cells(tsv_text(g)) == g,
{
    let rows = g.map_values(|r: Seq<Seq<char>>| row_text(r));
    assert forall|i: int| 0 <= i < rows.len() implies !(#[trigger] rows[i]).contains('\n')
        && !rows[i].contains('\r') by {
        assert forall|j: int| 0 <= j < g[i].len() implies !(#[trigger] g[i][j]).contains('\n')
            && !g[i][j].contains('\r') by {
            assert(plain_cell(g[i][j]));
        }
        lemma_joined_free(g[i], seq!['\t'], '\n');
        lemma_joined_free(g[i], seq!['\t'], '\r');
    }
    lemma_split_crlf(rows);
    let lines = with_cr(rows);
    let n = g.len();
    assert(lines.last() == rows[n - 1]);
    if n > 1 && lines.last().len() == 0 {
        lemma_joined_empty(g[n - 1], seq!['\t']);
        assert(g[n - 1] =~= seq![Seq::<char>::empty()]);
        assert(g.last() == g[n - 1]);
    }
    assert(body_lines(tsv_text(g)) == lines);
    assert forall|i: int| 0 <= i < n implies split_on(strip_cr(#[trigger] lines[i]), '\t') == g[i] by {
        if i < n - 1 {
            assert(lines[i].drop_last() =~= rows[i]);
        } else {
            assert(!rows[i].contains('\r'));
            if rows[i].len() > 0 {
                assert(rows[i][rows[i].len() - 1] == rows[i].last());
            }
        }
        assert(strip_cr(lines[i]) == rows[i]);
        assert forall|j: int| 0 <= j < g[i].len() implies !(#[trigger] g[i][j]).contains('\t') by {
            assert(plain_cell(g[i][j]));
        }
        lemma_split_joined(g[i], '\t');
    }
    assert(tsv_cells(tsv_text(g)) =~= g);
}

pub(crate) fn split_chars(v: &Vec<char>, c: char) -> (r: Vec<Vec<char>>)
    ensures
        r@.map_values(|p: Vec<char>| p@) == split_on(v@, c),
{
    let mut out: Vec<Vec<char>> = Vec::new();
    out.push(Vec::new());
    let mut i: usize = 0;
    assert(v@.take(0) =~= Seq::<char>::empty());
    assert(out@.map_values(|p: Vec<char>| p@) =~= split_on(v@.take(0), c));
    while i < v.len()
        invariant
            i <= v@.len(),
            out@.len() >= 1,
            out@.map_values(|p: Vec<char>| p@) == split_on(v@.take(i as int), c),
        decreases v@.len() - i,
    {
        let ghost before = out@.map_values(|p: Vec<char>| p@);
        assert(v@.take(i + 1).drop_last() =~= v@.take(i as int));
        assert(v@.take(i + 1).last() == v@[i as int]);
        if v[i] == c {
            out.push(Vec::new());
            assert(out@.map_values(|p: Vec<char>| p@) =~= before.push(Seq::empty()));
        } else {
            let last = out.len() - 1;
            let mut piece = out.pop().unwrap();
            piece.push(v[i]);
            out.push(piece);
            assert(out@.map_values(|p: Vec<char>| p@) =~= before.update(
                before.len() - 1,
                before.last().push(v@[i as int]),
            ));
        }
        i = i + 1;
    }
    assert(v@.take(v@.len() as int) =~= v@);
    out
}

pub(crate) fn strings_of(parts: &Vec<Vec<char>>) -> (r: Vec<String>)
    ensures
        views(r@) == parts@.map_values(|p: Vec<char>| p@),
{
    let mut out: Vec<String> = Vec::new();
    let mut i: usize = 0;
    while i < parts.len()
        invariant
            i <= parts@.len(),
            views(out@) == parts@.take(i as int).map_values(|p: Vec<char>| p@),
        decreases parts@.len() - i,
    {
        let ghost before = views(out@);
        let s = string_of(&parts[i]);
        out.push(s);
        assert(views(out@) =~= before.push(parts@[i as int]@));
        assert(parts@.take(i + 1).map_values(|p: Vec<char>| p@) =~= parts@.take(i as int).map_values(
            |p: Vec<char>| p@,
        ).push(parts@[i as int]@));
        i = i + 1;
    }
    assert(parts@.take(parts@.len() as int) =~= parts@);
    out
}

/// A block as tab-separated text: tabs between cells, CRLF between rows.
pub fn tsv_serialize(grid: &Vec<Vec<String>>) -> (r: String)
    ensures
        r@ == tsv_text(grid_views(grid@)),
{
    let ghost g = grid_views(grid@);
    let mut lines: Vec<String> = Vec::new();
    let mut i: usize = 0;
    proof {
        reveal_strlit("\t");
        reveal_strlit("\r\n");
    }
    while i < grid.len()
        invariant
            i <= grid@.len(),
            g == grid_views(grid@),
            "\t"@ == seq!['\t'],
            views(lines@) == g.take(i as int).map_values(|r: Seq<Seq<char>>| row_text(r)),
        decreases grid@.len() - i,
    {
        let ghost before = views(lines@);
        let line = join(&grid[i], "\t");
        assert(line@ == row_text(g[i as int]));
        lines.push(line);
        assert(views(lines@) =~= before.push(row_text(g[i as int])));
        assert(g.take(i + 1).map_values(|r: Seq<Seq<char>>| row_text(r)) =~= g.take(i as int).map_values(
            |r: Seq<Seq<char>>| row_text(r),
        ).push(row_text(g[i as int])));
        i = i + 1;
    }
    assert(g.take(grid@.len() as int) =~= g);
    assert("\r\n"@ =~= seq!['\r', '\n']);
    join(&lines, "\r\n")
}

/// The cells of a block of tab-separated text: one row per line (a line end
/// at the very end starts none), a carriage return before the line end
/// dropped, each row split at its tabs.
pub fn tsv_parse(s: &str) -> (r: Vec<Vec<String>>)
    ensures
        grid_views(r@) == tsv_cells(s@),
{
    let v = chars_of(s);
    let mut lines = split_chars(&v, '\n');
    let ghost ls = split_on(s@, '\n');
    proof { lemma_split_nonempty(s@, '\n'); }
    let n = lines.len();
    if n > 1 && lines[n - 1].len() == 0 {
        lines.pop();
        assert(lines@.map_values(|p: Vec<char>| p@) =~= ls.drop_last());
    }
    let ghost body = body_lines(s@);
    assert(lines@.map_values(|p: Vec<char>| p@) == body);
    let mut out: Vec<Vec<String>> = Vec::new();
    let mut i: usize = 0;
    while i < lines.len()
        invariant
            i <= lines@.len(),
            lines@.map_values(|p: Vec<char>| p@) == body,
            body == body_lines(s@),
            grid_views(out@) == body.take(i as int).map_values(
                |l: Seq<char>| split_on(strip_cr(l), '\t'),
            ),
        decreases lines@.len() - i,
    {
        let line = &lines[i];
        assert(line@ == body[i as int]);
        let k = line.len();
        let mut stripped: Vec<char> = Vec::new();
        let keep = if k > 0 && line[k - 1] == '\r' { k - 1 } else { k };
        let mut j: usize = 0;
        while j < keep
            invariant
                j <= keep <= line@.len(),
                stripped@ == line@.take(j as int),
            decreases keep - j,
        {
            stripped.push(line[j]);
            assert(stripped@ =~= line@.take(j + 1));
            j = j + 1;
        }
        assert(stripped@ =~= strip_cr(line@));
        let cells = split_chars(&stripped, '\t');
        let row = strings_of(&cells);
        let ghost before = grid_views(out@);
        let ghost cells_v = split_on(strip_cr(body[i as int]), '\t');
        assert(views(row@) == cells_v);
        out.push(row);
        assert(grid_views(out@) =~= before.push(cells_v));
        assert(body.take(i + 1).map_values(|l: Seq<char>| split_on(strip_cr(l), '\t'))
            =~= body.take(i as int).map_values(|l: Seq<char>| split_on(strip_cr(l), '\t')).push(cells_v));
        assert(grid_views(out@) =~= body.take(i + 1).map_values(
            |l: Seq<char>| split_on(strip_cr(l), '\t'),
        ));
        i = i + 1;
    }
    assert(body.take(lines@.len() as int) =~= body);
    out
}

} // verus!
