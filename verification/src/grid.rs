//! The grid's pointer and drop decisions: what a click does to the
//! selection, which column drops reorder, and which pages a window needs.

use vstd::prelude::*;

verus! {

/// What a click on a cell does to the selection.
#[derive(Clone, Copy, PartialEq, Eq, Debug, Structural)]
pub enum ClickAction {
    /// A context click inside the selection keeps it, for the menu to act on.
    KeepForMenu,
    /// A context click outside it selects the cell first.
    SelectForMenu,
    /// Shift extends the selection to the cell.
    Extend,
    /// ⌘ (Ctrl off macOS) adds the cell to the selection.
    Add,
    /// A plain click selects the cell alone.
    Select,
}

/// What a click does: the secondary button, or Ctrl on macOS, is a context
/// click; otherwise Shift extends, ⌘ (or Ctrl elsewhere) adds, and anything
/// else selects.
pub fn click_action(secondary: bool, ctrl: bool, meta: bool, shift: bool, mac: bool, in_selection: bool) -> (r: ClickAction)
    ensures
        r == (if secondary || (mac && ctrl) {
            if in_selection { ClickAction::KeepForMenu } else { ClickAction::SelectForMenu }
        } else if shift {
            ClickAction::Extend
        } else if meta || (!mac && ctrl) {
            ClickAction::Add
        } else {
            ClickAction::Select
        }),
{
    if secondary || (mac && ctrl) {
        if in_selection { ClickAction::KeepForMenu } else { ClickAction::SelectForMenu }
    } else if shift {
        ClickAction::Extend
    } else if meta || (!mac && ctrl) {
        ClickAction::Add
    } else {
        ClickAction::Select
    }
}

/// Whether a click starts a drag selection: every click but a context one.
pub fn starts_drag(action: ClickAction) -> (r: bool)
    ensures
        r == !(action == ClickAction::KeepForMenu || action == ClickAction::SelectForMenu),
{
    match action {
        ClickAction::KeepForMenu | ClickAction::SelectForMenu => false,
        _ => true,
    }
}

/// A header dropped on column `to` while column `from` was dragged: a move,
/// when both are columns of the `n` shown and they differ.
pub fn reorder_drop(from: Option<usize>, to: usize, n: usize) -> (r: Option<(usize, usize)>)
    ensures
        r == (match from {
            Some(f) => if f != to && f < n && to < n { Some((f, to)) } else { None },
            None => None,
        }),
{
    match from {
        Some(f) => if f != to && f < n && to < n { Some((f, to)) } else { None },
        None => None,
    }
}

/// The rows whose pages a window of rows `start..end` needs: its first and
/// its last (`end - 1`, held at 0), or none when the first is past the last.
pub fn page_rows(start: usize, end: usize) -> (r: Option<(u64, u64)>)
    ensures
        r == (if start > (if end > 0 { end - 1 } else { 0 }) {
            None
        } else {
            Some((start as u64, (if end > 0 { end - 1 } else { 0 }) as u64))
        }),
{
    let last = if end > 0 { end - 1 } else { 0 };
    if start > last {
        None
    } else {
        Some((start as u64, last as u64))
    }
}

/// Whether a committed edit moves the cursor: only by a step that is not
/// zero.
pub fn moves_cursor(move_by: (isize, isize)) -> (r: bool)
    ensures
        r == (move_by.0 != 0 || move_by.1 != 0),
{
    move_by.0 != 0 || move_by.1 != 0
}

/// Whether Enter on the grid opens the cell editor: only where edits are
/// allowed.
pub fn enter_edits(read_only: bool) -> (r: bool)
    ensures
        r == !read_only,
{
    !read_only
}

} // verus!
