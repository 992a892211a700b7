//! The grid's render window in whole rows and columns: how far past the
//! viewport it reaches, and the bounds that keep it small whatever size the
//! viewport reports.

use vstd::prelude::*;

verus! {

/// Rows rendered above and below the viewport.
pub const OVERSCAN_ROWS: usize = 4;
/// Columns rendered left and right of the viewport.
pub const OVERSCAN_COLS: usize = 2;
/// The most rows one render lays out.
pub const MAX_RENDER_ROWS: usize = 400;
/// The most columns one render lays out.
pub const MAX_RENDER_COLS: usize = 100;

/// The half-open row range and column range to render.
#[derive(Debug, PartialEq, Eq)]
pub struct VisibleRange {
    pub rows: std::ops::Range<usize>,
    pub cols: std::ops::Range<usize>,
}

/// Where a window starts: `overscan` before the first index in view, and
/// never before the first.
pub open spec fn start_of(seen: int, overscan: int) -> int {
    if seen > overscan { seen - overscan } else { 0 }
}

/// Where a window ends: `overscan` past the end of what is in view, but not
/// past the data, nor more than `cap` from its start, nor before its start.
pub open spec fn end_of(start: int, end_seen: int, total: int, overscan: int, cap: int) -> int {
    let e = end_seen + overscan;
    let e = if e < total { e } else { total };
    let e = if e < start + cap { e } else { start + cap };
    if e < start { start } else { e }
}

/// The first index of a window whose first index in view is `seen`.
pub fn window_start(seen: usize, overscan: usize) -> (r: usize)
    ensures
        r == start_of(seen as int, overscan as int),
{
    seen.saturating_sub(overscan)
}

/// A window from `start`, reaching `overscan` past `end_seen`, the end of
/// what is in view, but not past `total` nor longer than `cap`.
pub fn window(start: usize, end_seen: usize, total: usize, overscan: usize, cap: usize) -> (r: std::ops::Range<usize>)
    requires
        end_seen + overscan <= usize::MAX,
    ensures
        r.start == start,
        r.end == end_of(start as int, end_seen as int, total as int, overscan as int, cap as int),
        r.start <= r.end,
        r.end - r.start <= cap,
        r.end <= total || r.end == r.start,
{
    let e = end_seen + overscan;
    let e = if e < total { e } else { total };
    let lim = start.saturating_add(cap);
    let e = if e < lim { e } else { lim };
    let e = if e < start { start } else { e };
    start..e
}

/// The render window for the rows first in view and past the end of view,
/// and the columns likewise (the column start is where the walk of widths
/// began, already overscanned).
pub fn visible_window(
    first_row_seen: usize,
    row_end_seen: usize,
    total_rows: usize,
    first_col: usize,
    col_end_seen: usize,
    total_cols: usize,
) -> (r: VisibleRange)
    requires
        row_end_seen + OVERSCAN_ROWS <= usize::MAX,
        col_end_seen + OVERSCAN_COLS <= usize::MAX,
    ensures
        r.rows.start == start_of(first_row_seen as int, OVERSCAN_ROWS as int),
        r.rows.end == end_of(r.rows.start as int, row_end_seen as int, total_rows as int, OVERSCAN_ROWS as int, MAX_RENDER_ROWS as int),
        r.cols.start == first_col,
        r.cols.end == end_of(first_col as int, col_end_seen as int, total_cols as int, OVERSCAN_COLS as int, MAX_RENDER_COLS as int),
        r.rows.end - r.rows.start <= MAX_RENDER_ROWS,
        r.cols.end - r.cols.start <= MAX_RENDER_COLS,
        r.rows.end <= total_rows || r.rows.end == r.rows.start,
        r.cols.end <= total_cols || r.cols.end == r.cols.start,
{
    let first_row = window_start(first_row_seen, OVERSCAN_ROWS);
    VisibleRange {
        rows: window(first_row, row_end_seen, total_rows, OVERSCAN_ROWS, MAX_RENDER_ROWS),
        cols: window(first_col, col_end_seen, total_cols, OVERSCAN_COLS, MAX_RENDER_COLS),
    }
}

} // verus!
