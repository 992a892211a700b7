//! Live refresh: re-reading a tab's source file, with the transforms that
//! can be replayed on the new rows, and the confirm when edits would be lost.

use vstd::prelude::*;
use crate::i18n::Catalog;
use crate::import_progress::{file_label, label_text};
use crate::text::{replace_all, replaced, str_eq, views};

verus! {

/// A transform of a view, as far as replaying it needs to know.
#[derive(Clone, PartialEq, Eq, Debug)]
pub enum Transform {
    /// Keeps the rows whose `column` passes.
    Filter { column: String },
    /// Orders the rows by these columns.
    Sort { columns: Vec<String> },
    /// Anything that names no column.
    Other,
}

/// Whether `columns` has one named `c`.
pub open spec fn has_column(columns: Seq<Seq<char>>, c: Seq<char>) -> bool {
    exists|i: int| 0 <= i < columns.len() && columns[i] == c
}

/// Whether some of `keys` is not among `columns`.
pub open spec fn lacks_any(keys: Seq<Seq<char>>, columns: Seq<Seq<char>>) -> bool {
    exists|k: int| 0 <= k < keys.len() && !has_column(columns, #[trigger] keys[k])
}

/// Whether a transform names a column the new rows lack.
pub open spec fn drifts(t: Transform, columns: Seq<Seq<char>>) -> bool {
    match t {
        Transform::Filter { column } => !has_column(columns, column@),
        Transform::Sort { columns: keys } => lacks_any(views(keys@), columns),
        Transform::Other => false,
    }
}

fn column_present(columns: &Vec<String>, c: &str) -> (r: bool)
    ensures
        r == has_column(views(columns@), c@),
{
    let mut i: usize = 0;
    while i < columns.len()
        invariant
            i <= columns@.len(),
            forall|k: int| 0 <= k < i ==> columns@[k]@ != c@,
        decreases columns@.len() - i,
    {
        if str_eq(columns[i].as_str(), c) {
            assert(views(columns@)[i as int] == c@);
            return true;
        }
        i = i + 1;
    }
    proof {
        if has_column(views(columns@), c@) {
            let j = choose|j: int| 0 <= j < views(columns@).len() && views(columns@)[j] == c@;
            assert(columns@[j]@ == c@);
        }
    }
    false
}

fn step_drifts(t: &Transform, columns: &Vec<String>) -> (r: bool)
    ensures
        r == drifts(*t, views(columns@)),
{
    match t {
        Transform::Filter { column } => !column_present(columns, column.as_str()),
        Transform::Sort { columns: keys } => {
            let mut k: usize = 0;
            while k < keys.len()
                invariant
                    k <= keys@.len(),
                    *t == (Transform::Sort { columns: *keys }),
                    forall|m: int| 0 <= m < k ==> has_column(views(columns@), keys@[m]@),
                decreases keys@.len() - k,
            {
                if !column_present(columns, keys[k].as_str()) {
                    assert(!has_column(views(columns@), views(keys@)[k as int]));
                    return true;
                }
                k = k + 1;
            }
            proof {
                if lacks_any(views(keys@), views(columns@)) {
                    let m = choose|m: int| 0 <= m < views(keys@).len() && !has_column(views(columns@), #[trigger] views(keys@)[m]);
                    assert(has_column(views(columns@), keys@[m]@));
                }
            }
            false
        },
        Transform::Other => false,
    }
}

/// What a re-read replays: every kept transform when none names a column
/// the new rows lack, and none otherwise, with the drift reported.
pub fn replayable_on(ops: Vec<Transform>, columns: &Vec<String>) -> (r: (Vec<Transform>, bool))
    ensures
        r.1 == (exists|i: int| 0 <= i < ops@.len() && drifts(ops@[i], views(columns@))),
        r.1 ==> r.0@.len() == 0,
        !r.1 ==> r.0@ == ops@,
{
    let mut i: usize = 0;
    let mut drifted = false;
    while i < ops.len()
        invariant
            i <= ops@.len(),
            drifted == (exists|k: int| 0 <= k < i && drifts(ops@[k], views(columns@))),
        decreases ops@.len() - i,
    {
        if step_drifts(&ops[i], columns) {
            drifted = true;
        }
        i = i + 1;
    }
    if drifted {
        (Vec::new(), true)
    } else {
        (ops, false)
    }
}

/// The title of the banner saying a tab's file changed on disk: the
/// catalog's, with `{file}` the file's name, the path read on Windows
/// (`windows`) or elsewhere.
pub open spec fn changed_title_text(cat: Catalog, path: Seq<char>, windows: bool) -> Seq<char> {
    replaced(cat.text("livedata.changed.title"@), "{file}"@, label_text(path, windows))
}

/// The title of the banner saying a tab's file changed on disk.
pub fn changed_title(cat: &Catalog, path: &str, windows: bool) -> (r: String)
    ensures
        r@ == changed_title_text(*cat, path@, windows),
{
    let t = cat.t("livedata.changed.title");
    proof { reveal_strlit("{file}"); }
    replace_all(t.as_str(), "{file}", file_label(path, windows).as_str())
}

/// What a refresh does.
#[derive(Clone, Copy, PartialEq, Eq, Debug, Structural)]
pub enum RefreshStep {
    /// No tab is open.
    Nothing,
    /// The tab has no file to re-read: a warning.
    WarnNoFile,
    /// Edits or deletions would be lost: ask first.
    Confirm,
    /// Re-read at once: nothing would be lost.
    Reimport,
}

/// What a refresh does: it needs a tab with a file, and asks first only when
/// row-keyed work would be dropped.
pub fn refresh_step(has_tab: bool, has_file: bool, dropped_edits: usize, dropped_deletes: usize) -> (r: RefreshStep)
    ensures
        r == (if !has_tab {
            RefreshStep::Nothing
        } else if !has_file {
            RefreshStep::WarnNoFile
        } else if dropped_edits > 0 || dropped_deletes > 0 {
            RefreshStep::Confirm
        } else {
            RefreshStep::Reimport
        }),
{
    if !has_tab {
        RefreshStep::Nothing
    } else if !has_file {
        RefreshStep::WarnNoFile
    } else if dropped_edits > 0 || dropped_deletes > 0 {
        RefreshStep::Confirm
    } else {
        RefreshStep::Reimport
    }
}

/// Whether a re-read landed where the tab is: the engine registered the file
/// under the tab's table name. Anything else is reported, not replayed.
pub fn reimport_landed(table: &str, registered: &Result<String, String>) -> (r: bool)
    ensures
        r == (registered matches Ok(name) && name@ == table@),
{
    match registered {
        Ok(name) => str_eq(name.as_str(), table),
        Err(_) => false,
    }
}

} // verus!
