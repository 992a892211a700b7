//! The grid's edit verbs as plans: which cells a paste writes and which it
//! skips, which cells fill down from which, and the limits on how much one
//! edit may touch.

use vstd::prelude::*;

verus! {

/// The most cells one edit may write.
pub const MAX_CELLS: usize = 10_000;
/// The most cells one copy may read.
pub const MAX_COPY_CELLS: usize = 100_000;

/// Whether `n` is more than an edit may touch.
pub fn too_many(n: usize, most: usize) -> (r: bool)
    ensures
        r == (n > most),
{
    n > most
}

/// How many cells a selection from row `r0` to `r1` and column `c0` to `c1`
/// (both inclusive) covers, held at `usize::MAX`.
pub fn copy_area(r0: usize, r1: usize, c0: usize, c1: usize) -> (r: usize)
    requires
        r0 <= r1,
        c0 <= c1,
        r1 - r0 < usize::MAX,
        c1 - c0 < usize::MAX,
    ensures
        r == (if (r1 - r0 + 1) * (c1 - c0 + 1) <= usize::MAX { (r1 - r0 + 1) * (c1 - c0 + 1) } else { usize::MAX as int }),
{
    let h = r1 - r0 + 1;
    let w = c1 - c0 + 1;
    if h <= usize::MAX / w {
        proof {
            assert(h * w <= (usize::MAX / w) * w) by (nonlinear_arith)
                requires h <= usize::MAX / w, w > 0;
            assert((usize::MAX / w) * w <= usize::MAX) by (nonlinear_arith)
                requires w > 0;
        }
        h * w
    } else {
        proof {
            assert(h * w > usize::MAX) by (nonlinear_arith)
                requires h > usize::MAX / w, w > 0;
        }
        usize::MAX
    }
}

/// What a pasted cell writes: an empty one clears the cell; any other text
/// is coerced to the column's type.
#[derive(Clone, PartialEq, Eq, Debug)]
pub enum PasteValue {
    Null,
    Text(String),
}

/// One cell a paste writes.
#[derive(Clone, PartialEq, Eq, Debug)]
pub struct PasteCell {
    pub row: usize,
    pub col: usize,
    pub value: PasteValue,
}

/// The cells a block pasted at `(at_row, at_col)` writes, row by row: each
/// block cell lands offset by its position, and is written only where the
/// grid has that row and column.
pub open spec fn paste_targets(at_row: int, at_col: int, block: Seq<Seq<Seq<char>>>, rows: int, cols: int) -> Seq<(int, int, Seq<char>)>
    decreases block.len(),
{
    if block.len() == 0 {
        Seq::empty()
    } else {
        let dr = block.len() - 1;
        paste_targets(at_row, at_col, block.drop_last(), rows, cols)
            + line_targets(at_row + dr, at_col, block.last(), rows, cols)
    }
}

/// The cells one pasted line writes.
pub open spec fn line_targets(row: int, at_col: int, line: Seq<Seq<char>>, rows: int, cols: int) -> Seq<(int, int, Seq<char>)>
    decreases line.len(),
{
    if line.len() == 0 {
        Seq::empty()
    } else {
        let dc = line.len() - 1;
        let rest = line_targets(row, at_col, line.drop_last(), rows, cols);
        if row < rows && at_col + dc < cols { rest.push((row, at_col + dc, line.last())) } else { rest }
    }
}

/// How many cells of a block fall outside the grid.
pub open spec fn outside(at_row: int, at_col: int, block: Seq<Seq<Seq<char>>>, rows: int, cols: int) -> int {
    cell_count(block) - paste_targets(at_row, at_col, block, rows, cols).len()
}

/// How many cells a block holds.
pub open spec fn cell_count(block: Seq<Seq<Seq<char>>>) -> int
    decreases block.len(),
{
    if block.len() == 0 { 0 } else { cell_count(block.drop_last()) + block.last().len() }
}

/// A pasted cell as the grid reads it: `(row, column, text)`.
pub open spec fn cell_view(c: PasteCell) -> (int, int, Seq<char>) {
    (c.row as int, c.col as int, match c.value {
        PasteValue::Null => Seq::empty(),
        PasteValue::Text(t) => t@,
    })
}

proof fn lemma_line_len(row: int, at_col: int, line: Seq<Seq<char>>, rows: int, cols: int)
    ensures
        line_targets(row, at_col, line, rows, cols).len() <= line.len(),
    decreases line.len(),
{
    if line.len() > 0 {
        lemma_line_len(row, at_col, line.drop_last(), rows, cols);
    }
}

proof fn lemma_targets_len(at_row: int, at_col: int, block: Seq<Seq<Seq<char>>>, rows: int, cols: int)
    ensures
        paste_targets(at_row, at_col, block, rows, cols).len() <= cell_count(block),
    decreases block.len(),
{
    if block.len() > 0 {
        lemma_targets_len(at_row, at_col, block.drop_last(), rows, cols);
        lemma_line_len(at_row + block.len() - 1, at_col, block.last(), rows, cols);
    }
}

/// How many cells a block holds.
fn block_cells(block: &Vec<Vec<String>>) -> (r: usize)
    requires
        cell_count(crate::tsv::grid_views(block@)) <= usize::MAX,
    ensures
        r == cell_count(crate::tsv::grid_views(block@)),
{
    let ghost g = crate::tsv::grid_views(block@);
    let mut n: usize = 0;
    let mut i: usize = 0;
    while i < block.len()
        invariant
            i <= block@.len(),
            g == crate::tsv::grid_views(block@),
            cell_count(g) <= usize::MAX,
            n == cell_count(g.take(i as int)),
        decreases block@.len() - i,
    {
        assert(g.take(i + 1).drop_last() =~= g.take(i as int));
        proof { lemma_cell_count_prefix(g, i + 1); }
        n = n + block[i].len();
        i = i + 1;
    }
    assert(g.take(block@.len() as int) =~= g);
    n
}

proof fn lemma_cell_count_prefix(g: Seq<Seq<Seq<char>>>, k: int)
    requires
        0 <= k <= g.len(),
    ensures
        cell_count(g.take(k)) <= cell_count(g),
    decreases g.len() - k,
{
    if k < g.len() {
        lemma_cell_count_prefix(g, k + 1);
        assert(g.take(k + 1).drop_last() =~= g.take(k));
    } else {
        assert(g.take(k) =~= g);
    }
}

/// Plan a paste of `block` (its rows of cell texts) at `(at_row, at_col)` in
/// a grid of `rows` rows and `cols` columns: the cells written, in block
/// order, and how many fell outside the grid. An empty text clears its cell.
pub fn paste_plan(at_row: usize, at_col: usize, block: &Vec<Vec<String>>, rows: usize, cols: usize) -> (r: (Vec<PasteCell>, usize))
    requires
        at_row + block@.len() <= usize::MAX,
        forall|i: int| 0 <= i < block@.len() ==> at_col + (#[trigger] block@[i])@.len() <= usize::MAX,
        cell_count(crate::tsv::grid_views(block@)) <= usize::MAX,
    ensures
        r.0@.map_values(|c: PasteCell| cell_view(c)) == paste_targets(at_row as int, at_col as int, crate::tsv::grid_views(block@), rows as int, cols as int),
        forall|k: int| 0 <= k < r.0@.len() ==> (r.0@[k].value is Null <==> cell_view(r.0@[k]).2.len() == 0),
        r.1 == outside(at_row as int, at_col as int, crate::tsv::grid_views(block@), rows as int, cols as int),
{
    let ghost g = crate::tsv::grid_views(block@);
    let mut out: Vec<PasteCell> = Vec::new();
    let mut dr: usize = 0;
    while dr < block.len()
        invariant
            dr <= block@.len(),
            g == crate::tsv::grid_views(block@),
            at_row + block@.len() <= usize::MAX,
            forall|i: int| 0 <= i < block@.len() ==> at_col + (#[trigger] block@[i])@.len() <= usize::MAX,
            out@.map_values(|c: PasteCell| cell_view(c)) == paste_targets(at_row as int, at_col as int, g.take(dr as int), rows as int, cols as int),
            forall|k: int| 0 <= k < out@.len() ==> (out@[k].value is Null <==> cell_view(out@[k]).2.len() == 0),
        decreases block@.len() - dr,
    {
        let line = &block[dr];
        let row = at_row + dr;
        let ghost before = out@.map_values(|c: PasteCell| cell_view(c));
        let ghost lv = g[dr as int];
        assert(lv == crate::text::views(line@));
        assert(at_col + line@.len() <= usize::MAX);
        let mut dc: usize = 0;
        while dc < line.len()
            invariant
                dc <= line@.len(),
                lv == crate::text::views(line@),
                row == at_row + dr,
                at_col + line@.len() <= usize::MAX,
                out@.map_values(|c: PasteCell| cell_view(c)) == before + line_targets(row as int, at_col as int, lv.take(dc as int), rows as int, cols as int),
                forall|k: int| 0 <= k < out@.len() ==> (out@[k].value is Null <==> cell_view(out@[k]).2.len() == 0),
            decreases line@.len() - dc,
        {
            let col = at_col + dc;
            let text = &line[dc];
            assert(lv.take(dc + 1).drop_last() =~= lv.take(dc as int));
            assert(lv.take(dc + 1).last() == text@);
            let ghost mid = out@.map_values(|c: PasteCell| cell_view(c));
            if row < rows && col < cols {
                let value = if text.as_str().unicode_len() == 0 { PasteValue::Null } else { PasteValue::Text(text.clone()) };
                let cell = PasteCell { row, col, value };
                assert(cell_view(cell) == (row as int, col as int, text@)) by {
                    if text@.len() == 0 {
                        assert(text@ =~= Seq::<char>::empty());
                    }
                }
                out.push(cell);
                assert(out@.map_values(|c: PasteCell| cell_view(c)) =~= mid.push((row as int, col as int, text@)));
            }
            dc = dc + 1;
        }
        assert(lv.take(line@.len() as int) =~= lv);
        assert(g.take(dr + 1).drop_last() =~= g.take(dr as int));
        assert(g.take(dr + 1).last() == lv);
        dr = dr + 1;
    }
    assert(g.take(block@.len() as int) =~= g);
    let total = block_cells(block);
    proof { lemma_targets_len(at_row as int, at_col as int, g, rows as int, cols as int); }
    let skipped = total - out.len();
    (out, skipped)
}

/// How many cells of a line of `len` cells land inside the grid when the
/// line is pasted at `(row, at_col)`: none when the row is past the grid's
/// last; else as many as fit between `at_col` and the last column.
pub open spec fn landing_in_line(row: int, at_col: int, len: int, rows: int, cols: int) -> int {
    if row < rows && at_col < cols {
        if len <= cols - at_col { len } else { cols - at_col }
    } else {
        0
    }
}

/// How many cells of a block land inside the grid.
pub open spec fn landing_cells(at_row: int, at_col: int, block: Seq<Seq<Seq<char>>>, rows: int, cols: int) -> int
    decreases block.len(),
{
    if block.len() == 0 {
        0
    } else {
        landing_cells(at_row, at_col, block.drop_last(), rows, cols)
            + landing_in_line(at_row + block.len() - 1, at_col, block.last().len() as int, rows, cols)
    }
}

/// A pasted line writes, in order, its first cells up to the grid's last
/// column, each at its own column, when its row is in the grid; nothing when
/// it is not.
proof fn lemma_line_targets_exact(row: int, at_col: int, line: Seq<Seq<char>>, rows: int, cols: int)
    requires
        at_col >= 0,
    ensures
        line_targets(row, at_col, line, rows, cols).len() == landing_in_line(row, at_col, line.len() as int, rows, cols),
        forall|k: int| 0 <= k < line_targets(row, at_col, line, rows, cols).len() ==>
            #[trigger] line_targets(row, at_col, line, rows, cols)[k] == (row, at_col + k, line[k]),
    decreases line.len(),
{
    if line.len() > 0 {
        lemma_line_targets_exact(row, at_col, line.drop_last(), rows, cols);
        let rest = line_targets(row, at_col, line.drop_last(), rows, cols);
        assert forall|k: int| 0 <= k < rest.len() implies line.drop_last()[k] == line[k] by {}
    }
}

/// Pasting a block writes only inside the grid, each cell at its offset
/// from the active cell: every cell planned has a row below `rows` and a
/// column below `cols` and is the block's cell `(dr, dc)` at
/// `(at_row + dr, at_col + dc)`; every block cell whose place is inside the
/// grid is planned; and the cells planned are as many as land inside, so
/// the count of cells skipped is the block's cells less those.
pub proof fn lemma_paste_lands_inside(at_row: int, at_col: int, block: Seq<Seq<Seq<char>>>, rows: int, cols: int)
    requires
        at_row >= 0,
        at_col >= 0,
    ensures
        forall|k: int| 0 <= k < paste_targets(at_row, at_col, block, rows, cols).len() ==> {
            let t = #[trigger] paste_targets(at_row, at_col, block, rows, cols)[k];
            &&& t.0 < rows && t.1 < cols
            &&& exists|dr: int, dc: int| 0 <= dr < block.len() && 0 <= dc < block[dr].len()
                && t == (at_row + dr, at_col + dc, #[trigger] block[dr][dc])
        },
        forall|dr: int, dc: int| 0 <= dr < block.len() && 0 <= dc < block[dr].len()
            && at_row + dr < rows && at_col + dc < cols
            ==> paste_targets(at_row, at_col, block, rows, cols).contains((at_row + dr, at_col + dc, #[trigger] block[dr][dc])),
        paste_targets(at_row, at_col, block, rows, cols).len() == landing_cells(at_row, at_col, block, rows, cols),
        outside(at_row, at_col, block, rows, cols) == cell_count(block) - landing_cells(at_row, at_col, block, rows, cols),
    decreases block.len(),
{
    if block.len() > 0 {
        let d = block.drop_last();
        let n = block.len() - 1;
        let line = block.last();
        let row = at_row + n;
        lemma_paste_lands_inside(at_row, at_col, d, rows, cols);
        lemma_line_targets_exact(row, at_col, line, rows, cols);
        let p = paste_targets(at_row, at_col, d, rows, cols);
        let l = line_targets(row, at_col, line, rows, cols);
        let all = paste_targets(at_row, at_col, block, rows, cols);
        assert(all == p + l);
        assert forall|k: int| 0 <= k < all.len() implies {
            let t = #[trigger] all[k];
            &&& t.0 < rows && t.1 < cols
            &&& exists|dr: int, dc: int| 0 <= dr < block.len() && 0 <= dc < block[dr].len()
                && t == (at_row + dr, at_col + dc, #[trigger] block[dr][dc])
        } by {
            if k < p.len() {
                assert(all[k] == p[k]);
                let t = p[k];
                let (dr, dc) = choose|dr: int, dc: int| 0 <= dr < d.len() && 0 <= dc < d[dr].len()
                    && t == (at_row + dr, at_col + dc, #[trigger] d[dr][dc]);
                assert(d[dr] == block[dr]);
                assert(t == (at_row + dr, at_col + dc, block[dr][dc]));
            } else {
                let j = k - p.len();
                assert(all[k] == l[j]);
                assert(l[j] == (row, at_col + j, line[j]));
                assert(line == block[n]);
                assert(all[k] == (at_row + n, at_col + j, block[n][j]));
            }
        }
        assert forall|dr: int, dc: int| 0 <= dr < block.len() && 0 <= dc < block[dr].len()
            && at_row + dr < rows && at_col + dc < cols
            implies all.contains((at_row + dr, at_col + dc, #[trigger] block[dr][dc])) by {
            if dr < n {
                assert(d[dr] == block[dr]);
                assert(p.contains((at_row + dr, at_col + dc, d[dr][dc])));
                let k = choose|k: int| 0 <= k < p.len() && p[k] == (at_row + dr, at_col + dc, d[dr][dc]);
                assert(all[k] == p[k]);
            } else {
                assert(dc < l.len());
                assert(l[dc] == (row, at_col + dc, line[dc]));
                assert(all[p.len() + dc] == l[dc]);
            }
        }
    }
}

/// Whether some selected cell is in column `c`.
pub open spec fn in_column(cells: Seq<(usize, usize)>, c: usize) -> bool {
    exists|k: int| 0 <= k < cells.len() && (#[trigger] cells[k]).1 == c
}

/// Whether a selected cell is in column `c`.
pub open spec fn cell_in(c: usize) -> spec_fn((usize, usize)) -> bool {
    |x: (usize, usize)| x.1 == c
}

/// A selected cell's row.
pub open spec fn row_of() -> spec_fn((usize, usize)) -> usize {
    |x: (usize, usize)| x.0
}

/// The rows of the selected cells in column `c`, in selection order.
pub open spec fn rows_in(cells: Seq<(usize, usize)>, c: usize) -> Seq<usize> {
    cells.filter(cell_in(c)).map_values(row_of())
}

/// One column of a fill-down: the cells below its first selected one take
/// that one's value.
#[derive(Clone, PartialEq, Eq, Debug)]
pub struct FillColumn {
    pub col: usize,
    pub top: usize,
    pub below: Vec<usize>,
}

/// Whether column `c` comes after `after` (every column does after none).
pub open spec fn past(after: Option<usize>, c: usize) -> bool {
    match after {
        Some(a) => c > a,
        None => true,
    }
}

/// The smallest column of a selected cell past `after` (or any, for none).
fn next_column(cells: &Vec<(usize, usize)>, after: Option<usize>) -> (r: Option<usize>)
    ensures
        r matches Some(c) ==> in_column(cells@, c) && past(after, c)
            && forall|k: int| 0 <= k < cells@.len() && past(after, (#[trigger] cells@[k]).1) ==> c <= cells@[k].1,
        r is None ==> forall|k: int| 0 <= k < cells@.len() ==> !past(after, (#[trigger] cells@[k]).1),
{
    let mut best: Option<usize> = None;
    let mut i: usize = 0;
    while i < cells.len()
        invariant
            i <= cells@.len(),
            best matches Some(c) ==> in_column(cells@, c) && past(after, c)
                && forall|k: int| 0 <= k < i && past(after, (#[trigger] cells@[k]).1) ==> c <= cells@[k].1,
            best is None ==> forall|k: int| 0 <= k < i ==> !past(after, (#[trigger] cells@[k]).1),
        decreases cells@.len() - i,
    {
        let c = cells[i].1;
        let past = match after {
            Some(a) => c > a,
            None => true,
        };
        if past {
            match best {
                Some(b) => {
                    if c < b {
                        best = Some(c);
                    }
                },
                None => {
                    best = Some(c);
                },
            }
        }
        i = i + 1;
    }
    best
}

/// The rows selected in column `c`, in selection order.
fn column_rows(cells: &Vec<(usize, usize)>, c: usize) -> (r: Vec<usize>)
    ensures
        r@ == rows_in(cells@, c),
{
    let mut out: Vec<usize> = Vec::new();
    let mut i: usize = 0;
    while i < cells.len()
        invariant
            i <= cells@.len(),
            out@ == rows_in(cells@.take(i as int), c),
        decreases cells@.len() - i,
    {
        let ghost prev = cells@.take(i as int);
        assert(cells@.take(i + 1).drop_last() =~= prev);
        assert(cells@.take(i + 1).last() == cells@[i as int]);
        assert(cells@.take(i + 1).filter(cell_in(c)) == (if cells@[i as int].1 == c {
            prev.filter(cell_in(c)).push(cells@[i as int])
        } else {
            prev.filter(cell_in(c))
        })) by {
            reveal(Seq::filter);
        }
        let ghost f = prev.filter(cell_in(c));
        if cells[i].1 == c {
            out.push(cells[i].0);
            assert(f.push(cells@[i as int]).map_values(row_of())
                =~= f.map_values(row_of()).push(cells@[i as int].0));
            assert(out@ =~= rows_in(cells@.take(i + 1), c));
        } else {
            assert(out@ =~= rows_in(cells@.take(i + 1), c));
        }
        i = i + 1;
    }
    assert(cells@.take(cells@.len() as int) =~= cells@);
    out
}

/// Plan a fill down over the selected cells `(row, column)`: a column per
/// selected column the grid has, ascending, each filled from its first
/// selected row into the rest.
pub fn fill_plan(cells: &Vec<(usize, usize)>, cols: usize) -> (r: Vec<FillColumn>)
    ensures
        forall|i: int, j: int| 0 <= i < j < r@.len() ==> r@[i].col < r@[j].col,
        forall|i: int| 0 <= i < r@.len() ==> (#[trigger] r@[i]).col < cols && in_column(cells@, r@[i].col)
            && seq![r@[i].top] + r@[i].below@ == rows_in(cells@, r@[i].col),
        forall|k: int| 0 <= k < cells@.len() && cells@[k].1 < cols ==> exists|i: int| 0 <= i < r@.len() && (#[trigger] r@[i]).col == cells@[k].1,
{
    let mut out: Vec<FillColumn> = Vec::new();
    let mut last: Option<usize> = None;
    loop
        invariant
            forall|i: int, j: int| 0 <= i < j < out@.len() ==> out@[i].col < out@[j].col,
            forall|i: int| 0 <= i < out@.len() ==> (#[trigger] out@[i]).col < cols && in_column(cells@, out@[i].col)
                && seq![out@[i].top] + out@[i].below@ == rows_in(cells@, out@[i].col),
            forall|i: int| 0 <= i < out@.len() ==> !past(last, (#[trigger] out@[i]).col),
            forall|k: int| 0 <= k < cells@.len() && (#[trigger] cells@[k]).1 < cols && !past(last, cells@[k].1)
                ==> exists|i: int| 0 <= i < out@.len() && (#[trigger] out@[i]).col == cells@[k].1,
        decreases (match last { Some(l) => usize::MAX - l, None => usize::MAX as int + 1 }),
    {
        let next = next_column(cells, last);
        let c = match next {
            None => {
                return out;
            },
            Some(c) => c,
        };
        let ghost prev_last = last;
        let ghost prev_out = out@;
        if c < cols {
            let rows = column_rows(cells, c);
            proof {
                let k = choose|k: int| 0 <= k < cells@.len() && (#[trigger] cells@[k]).1 == c;
                cells@.lemma_filter_contains(cell_in(c), k);
                assert(cells@.filter(cell_in(c)).len() > 0);
                assert(rows@.len() == cells@.filter(cell_in(c)).len());
            }
            let mut below: Vec<usize> = Vec::new();
            let mut j: usize = 1;
            while j < rows.len()
                invariant
                    1 <= j <= rows@.len(),
                    below@ == rows@.subrange(1, j as int),
                decreases rows@.len() - j,
            {
                below.push(rows[j]);
                assert(below@ =~= rows@.subrange(1, j + 1));
                j = j + 1;
            }
            out.push(FillColumn { col: c, top: rows[0], below });
            assert(seq![rows@[0]] + rows@.subrange(1, rows@.len() as int) =~= rows@);
        }
        last = Some(c);
        assert forall|k: int| 0 <= k < cells@.len() && (#[trigger] cells@[k]).1 < cols && !past(last, cells@[k].1)
            implies exists|i: int| 0 <= i < out@.len() && (#[trigger] out@[i]).col == cells@[k].1 by {
            if past(prev_last, cells@[k].1) {
                assert(c <= cells@[k].1);
                assert(out@[out@.len() - 1].col == c);
            } else {
                let i = choose|i: int| 0 <= i < prev_out.len() && (#[trigger] prev_out[i]).col == cells@[k].1;
                assert(out@[i] == prev_out[i]);
            }
        }
    }
}

/// What deleting the selected columns does.
#[derive(Clone, Copy, PartialEq, Eq, Debug, Structural)]
pub enum DeleteColumns {
    /// No column is selected.
    Nothing,
    /// Every column would go: a view needs one, so it is refused with a
    /// warning.
    WarnLast,
    /// The columns go.
    Delete,
}

/// What deleting `selected` of the view's `total` columns does.
pub fn delete_columns_step(selected: usize, total: usize) -> (r: DeleteColumns)
    ensures
        r == (if selected == 0 {
            DeleteColumns::Nothing
        } else if selected >= total {
            DeleteColumns::WarnLast
        } else {
            DeleteColumns::Delete
        }),
{
    if selected == 0 {
        DeleteColumns::Nothing
    } else if selected >= total {
        DeleteColumns::WarnLast
    } else {
        DeleteColumns::Delete
    }
}

} // verus!
