//! The pipeline bar: the base the view reads and each transform on it, with
//! the transforms past the undo cursor drawn as undone.

use vstd::prelude::*;
use crate::a11y::{format_swatch, swatch};
use crate::i18n::Catalog;

verus! {

/// Whether step `i` is past the cursor, which is how many steps apply: an
/// undone step.
pub fn step_is_past(i: usize, cursor: usize) -> (r: bool)
    ensures
        r == (i >= cursor),
{
    i >= cursor
}

/// A step chip's class: undone steps are drawn apart.
pub fn chip_class(i: usize, cursor: usize) -> (r: &'static str)
    ensures
        r@ == (if i >= cursor { "d0-chip is-past"@ } else { "d0-chip"@ }),
{
    if step_is_past(i, cursor) { "d0-chip is-past" } else { "d0-chip" }
}

/// The cursor a click on step `i` jumps to: the view with steps up to and
/// including it applied.
pub fn jump_target(i: usize) -> (r: usize)
    requires
        i < usize::MAX,
    ensures
        r == i + 1,
{
    i + 1
}

/// The base chip's label: the source's path, or the catalog's name for the
/// base when there is none.
pub fn base_label(cat: &Catalog, source: Option<&str>) -> (r: String)
    ensures
        source matches Some(s) ==> r@ == s@,
        source is None ==> r@ == cat.text("pipeline.base"@),
{
    match source {
        Some(s) => s.to_string(),
        None => cat.t("pipeline.base"),
    }
}

/// The base chip's swatch: its source's format, when it has a source; the
/// source read as the platform reads it (`windows` for Windows).
pub fn base_swatch(source: Option<&str>, windows: bool) -> (r: Option<&'static str>)
    ensures
        source matches Some(s) ==> (r matches Some(w) && w@ == swatch(s@, windows)),
        source is None ==> r is None,
{
    match source {
        Some(s) => Some(format_swatch(s, windows)),
        None => None,
    }
}

} // verus!
