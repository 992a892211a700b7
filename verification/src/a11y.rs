//! Accessibility attributes, and the format-identity helper that rides along
//! with them.
//!
//! `data-a11y-id` is dat0's own stable handle: a test that queries by it
//! survives a copy change that `aria-label` would not.

use vstd::prelude::*;
use crate::paths::extension;
use crate::text::{ascii_lower, chars_of, lowered, string_of, vec_eq};

verus! {

/// The roles dat0 uses, mapped to ARIA.
///
/// Deliberately small: a larger vocabulary invites a component to pick a role
/// because it sounds right rather than because a screen reader does something
/// useful with it.
#[derive(Debug, Clone, Copy, PartialEq, Eq, Structural)]
pub enum AccessRole {
    /// Anything clickable that is not a link.
    Button,
    /// Static descriptive text a reader should announce with its control.
    Label,
    /// One grid cell.
    Cell,
    /// One grid row.
    Row,
    /// A modal surface. Implies a focus trap.
    Dialog,
    /// Something that must interrupt: a failure, a destructive confirmation.
    Alert,
    /// One workspace tab. Its parent carries `role="tablist"`.
    Tab,
    /// A landmark a reader can jump to.
    Navigation,
}

/// The ARIA `role` value of each role.
pub open spec fn aria_value(role: AccessRole) -> Seq<char> {
    match role {
        AccessRole::Button => "button"@,
        AccessRole::Label => "note"@,
        AccessRole::Cell => "gridcell"@,
        AccessRole::Row => "row"@,
        AccessRole::Dialog => "dialog"@,
        AccessRole::Alert => "alert"@,
        AccessRole::Tab => "tab"@,
        AccessRole::Navigation => "navigation"@,
    }
}

impl AccessRole {
    /// The ARIA `role` string.
    pub fn aria(self) -> (r: &'static str)
        ensures
            r@ == aria_value(self),
    {
        match self {
            AccessRole::Button => "button",
            // `note` rather than `label`: ARIA's `label` role does not exist,
            // and `note` is what a reader announces as ancillary content.
            AccessRole::Label => "note",
            AccessRole::Cell => "gridcell",
            AccessRole::Row => "row",
            AccessRole::Dialog => "dialog",
            AccessRole::Alert => "alert",
            AccessRole::Tab => "tab",
            AccessRole::Navigation => "navigation",
        }
    }
}

/// Tab-order participation.
#[derive(Debug, Clone, Copy, PartialEq, Eq, Structural)]
pub enum TabStop {
    /// In the natural tab order.
    Yes,
    /// Focusable programmatically, but skipped by Tab: the container owns the
    /// tab stop and arrow keys move within it.
    Programmatic,
    /// Not focusable.
    No,
}

/// The `tabindex` value of each participation, `None` when it is omitted.
pub open spec fn tab_index(tab: TabStop) -> Option<i32> {
    match tab {
        TabStop::Yes => Some(0i32),
        TabStop::Programmatic => Some(-1i32),
        TabStop::No => None,
    }
}

impl TabStop {
    /// The `tabindex` value, or `None` when the attribute should be omitted.
    pub fn index(self) -> (r: Option<i32>)
        ensures
            r == tab_index(self),
    {
        match self {
            TabStop::Yes => Some(0),
            TabStop::Programmatic => Some(-1),
            TabStop::No => None,
        }
    }
}

/// The participation a role gets unless it is overridden: cells, rows, tabs,
/// dialogs and alerts are reached from their container; buttons are stops;
/// labels and landmarks are not focusable.
pub open spec fn default_tab(role: AccessRole) -> TabStop {
    match role {
        AccessRole::Cell | AccessRole::Row => TabStop::Programmatic,
        AccessRole::Button => TabStop::Yes,
        AccessRole::Label => TabStop::No,
        AccessRole::Tab => TabStop::Programmatic,
        AccessRole::Navigation => TabStop::No,
        AccessRole::Dialog | AccessRole::Alert => TabStop::Programmatic,
    }
}

/// The `tabindex` text for a participation.
pub open spec fn tabindex_text(tab: TabStop) -> Option<Seq<char>> {
    match tab {
        TabStop::Yes => Some("0"@),
        TabStop::Programmatic => Some("-1"@),
        TabStop::No => None,
    }
}

/// One element's accessibility identity.
#[derive(Debug, Clone)]
pub struct A11y {
    /// Stable query handle. Never localised, never derived from copy.
    pub id: &'static str,
    pub role: AccessRole,
    /// The announced name. Localised.
    pub label: String,
    pub tab: TabStop,
}

impl A11y {
    /// The identity of an element with this id, role and label, in the tab
    /// order its role implies.
    pub fn new(id: &'static str, role: AccessRole, label: &str) -> (r: Self)
        ensures
            r.id == id,
            r.role == role,
            r.label@ == label@,
            r.tab == default_tab(role),
    {
        let tab = match role {
            // A cell or a row is reached by arrow keys from its container,
            // never by Tab: a million rows of tab stops is not navigation.
            AccessRole::Cell | AccessRole::Row => TabStop::Programmatic,
            AccessRole::Button => TabStop::Yes,
            AccessRole::Label => TabStop::No,
            // A tab strip is one stop: Tab reaches the strip, arrows move
            // within it.
            AccessRole::Tab => TabStop::Programmatic,
            // A landmark is reached by the reader's own navigation.
            AccessRole::Navigation => TabStop::No,
            AccessRole::Dialog | AccessRole::Alert => TabStop::Programmatic,
        };
        A11y { id, role, label: string_of(&chars_of(label)), tab }
    }

    /// Override the default tab participation for this role.
    pub fn tab(self, tab: TabStop) -> (r: Self)
        ensures
            r.id == self.id,
            r.role == self.role,
            r.label == self.label,
            r.tab == tab,
    {
        A11y { tab, ..self }
    }

    /// `tabindex` as a string, or `None` to omit the attribute.
    pub fn tabindex(&self) -> (r: Option<&'static str>)
        ensures
            r matches Some(t) ==> tabindex_text(self.tab) == Some(t@),
            r is None ==> tabindex_text(self.tab) is None,
    {
        match self.tab.index() {
            None => None,
            Some(i) => {
                if i == 0 {
                    Some("0")
                } else {
                    Some("-1")
                }
            },
        }
    }
}

/// The swatch class of a lowered extension.
pub open spec fn swatch_of_extension(ext: Seq<char>) -> Seq<char> {
    if ext == "csv"@ || ext == "tsv"@ {
        "sw-csv"@
    } else if ext == "parquet"@ || ext == "pq"@ {
        "sw-parquet"@
    } else if ext == "sqlite"@ || ext == "sqlite3"@ || ext == "db"@ {
        "sw-sqlite"@
    } else if ext == "json"@ || ext == "jsonl"@ || ext == "ndjson"@ {
        "sw-json"@
    } else if ext == "dat0"@ {
        "sw-dat0"@
    } else {
        "sw-other"@
    }
}

/// The swatch class of a path, read on Windows (`windows`) or elsewhere:
/// that of its extension, lowered, or of the empty extension when it has
/// none.
pub open spec fn swatch(path: Seq<char>, windows: bool) -> Seq<char> {
    match extension(path, windows) {
        Some(e) => swatch_of_extension(ascii_lower(e)),
        None => swatch_of_extension(Seq::empty()),
    }
}

/// The letter case of a path does not change its swatch: `sales.csv` and
/// `SALES.CSV` are the same colour, and so are any two paths that differ only
/// in ASCII case.
pub proof fn lemma_swatch_ignores_case(p: Seq<char>, q: Seq<char>, windows: bool)
    requires
        ascii_lower(p) == ascii_lower(q),
    ensures
        swatch(p, windows) == swatch(q, windows),
{
    crate::paths::lemma_extension_lowered(p, windows);
    crate::paths::lemma_extension_lowered(q, windows);
    match extension(p, windows) {
        Some(e) => crate::paths::lemma_lower_twice(e),
        None => {},
    }
    match extension(q, windows) {
        Some(e) => crate::paths::lemma_lower_twice(e),
        None => {},
    }
}

fn is_one_of(v: &Vec<char>, a: &str) -> (r: bool)
    ensures
        r == (v@ == a@),
{
    vec_eq(v, &chars_of(a))
}

/// The CSS class for the 7×7 swatch that precedes a file name.
///
/// One definition, used by the sidebar, chips, tab titles and the grid's
/// source badge, so a `.parquet` is the same colour everywhere. The path is
/// read as the platform reads it: `windows` for Windows.
pub fn format_swatch(path: &str, windows: bool) -> (r: &'static str)
    ensures
        r@ == swatch(path@, windows),
{
    let ext: Vec<char> = match crate::paths::extension_of(path, windows) {
        Some(e) => lowered(&chars_of(e.as_str())),
        None => Vec::new(),
    };
    proof {
        assert(ascii_lower(Seq::<char>::empty()) =~= Seq::<char>::empty());
    }
    if is_one_of(&ext, "csv") || is_one_of(&ext, "tsv") {
        "sw-csv"
    } else if is_one_of(&ext, "parquet") || is_one_of(&ext, "pq") {
        "sw-parquet"
    } else if is_one_of(&ext, "sqlite") || is_one_of(&ext, "sqlite3") || is_one_of(&ext, "db") {
        "sw-sqlite"
    } else if is_one_of(&ext, "json") || is_one_of(&ext, "jsonl") || is_one_of(&ext, "ndjson") {
        "sw-json"
    } else if is_one_of(&ext, "dat0") {
        "sw-dat0"
    } else {
        "sw-other"
    }
}

} // verus!
