//! The import strip: what a dropped file is doing, how far it has got, and
//! whether it can still be stopped. The strip's states are the drop's
//! outcomes, mapped one for one.

use vstd::prelude::*;
use crate::a11y::{format_swatch, swatch};
use crate::chrome::{bytes_text, human_bytes};
use crate::i18n::Catalog;
use crate::paths::{file_name, file_name_of};
use crate::text::{decimal, decimal_string};

verus! {

/// How a dropped file's import ended.
#[derive(Clone, PartialEq, Eq, Debug)]
pub enum DropOutcome {
    /// Registered as `table_name`.
    Registered { table_name: String, source_path: String },
    /// Its extension is not one dat0 reads.
    Unsupported { path: String, extension: Option<String> },
    /// The engine refused it.
    EngineError { path: String, error: String },
    /// The import wizard takes over, to ask about the dialect.
    OpenWizard { path: String },
    /// Stopped by the user.
    Cancelled { path: String },
}

/// What the strip shows.
#[derive(Clone, PartialEq, Eq, Debug)]
pub enum ImportState {
    /// Nothing is importing; the strip shows nothing.
    Idle,
    /// In flight; a `total` of 0 is a size not known.
    Running { file: String, done: u64, total: u64 },
    /// Registered, with the table it landed in.
    Done { file: String, table: String },
    /// Stopped mid-flight.
    Cancelled { file: String },
    /// An extension dat0 does not read.
    Unsupported { file: String, extension: Option<String> },
    /// The engine refused the file.
    Failed { file: String, error: String },
}

/// The state a finished drop leaves: each outcome its own, and none while
/// the wizard asks about the dialect.
pub open spec fn state_of(outcome: DropOutcome) -> ImportState {
    match outcome {
        DropOutcome::Registered { table_name, source_path } => ImportState::Done { file: source_path, table: table_name },
        DropOutcome::Unsupported { path, extension } => ImportState::Unsupported { file: path, extension },
        DropOutcome::EngineError { path, error } => ImportState::Failed { file: path, error },
        DropOutcome::OpenWizard { .. } => ImportState::Idle,
        DropOutcome::Cancelled { path } => ImportState::Cancelled { file: path },
    }
}

/// A whole percent of `done` over `total`, at most 100.
pub open spec fn percent_of(done: nat, total: nat) -> nat {
    let p = (if done * 100 <= u64::MAX { done * 100 } else { u64::MAX as nat }) / total;
    if p < 100 { p } else { 100 }
}

/// The file a state is about, if any.
pub open spec fn file_of(s: ImportState) -> Option<String> {
    match s {
        ImportState::Idle => None,
        ImportState::Running { file, .. } => Some(file),
        ImportState::Done { file, .. } => Some(file),
        ImportState::Cancelled { file } => Some(file),
        ImportState::Unsupported { file, .. } => Some(file),
        ImportState::Failed { file, .. } => Some(file),
    }
}

/// The completion a state shows: a running import's percent, when its size
/// is known.
pub open spec fn percent_shown(s: ImportState) -> Option<nat> {
    match s {
        ImportState::Running { done, total, .. } => if total > 0 { Some(percent_of(done as nat, total as nat)) } else { None },
        _ => None,
    }
}

/// The line the strip shows for `s`.
pub open spec fn message_text(cat: Catalog, s: ImportState) -> Seq<char> {
    match s {
        ImportState::Idle => Seq::empty(),
        ImportState::Running { done, total, .. } => cat.text("import.running"@) + " · "@ + (
            if total > 0 { decimal(percent_of(done as nat, total as nat)) + "%"@ } else { bytes_text(done as nat) }),
        ImportState::Done { table, .. } => cat.text("import.done"@) + " "@ + table@,
        ImportState::Cancelled { .. } => cat.text("import.cancelled"@),
        ImportState::Unsupported { extension, .. } => match extension {
            Some(e) => cat.text("import.unsupported"@) + " ."@ + e@,
            None => cat.text("import.unsupported.no_extension"@),
        },
        ImportState::Failed { error, .. } => cat.text("import.failed"@) + " "@ + error@,
    }
}

fn clone_opt(o: &Option<String>) -> (r: Option<String>)
    ensures
        r == *o,
{
    match o {
        Some(s) => Some(s.clone()),
        None => None,
    }
}

fn join3(a: String, b: &str, c: &str) -> (r: String)
    ensures
        r@ == a@ + b@ + c@,
{
    let mut s = a;
    s.append(b);
    s.append(c);
    s
}

impl ImportState {
    /// The state a finished drop leaves.
    pub fn from_outcome(outcome: &DropOutcome) -> (r: Self)
        ensures
            r == state_of(*outcome),
    {
        match outcome {
            DropOutcome::Registered { table_name, source_path } => ImportState::Done {
                file: source_path.clone(),
                table: table_name.clone(),
            },
            DropOutcome::Unsupported { path, extension } => ImportState::Unsupported {
                file: path.clone(),
                extension: clone_opt(extension),
            },
            DropOutcome::EngineError { path, error } => ImportState::Failed { file: path.clone(), error: error.clone() },
            DropOutcome::OpenWizard { .. } => ImportState::Idle,
            DropOutcome::Cancelled { path } => ImportState::Cancelled { file: path.clone() },
        }
    }

    /// A running state sampled from the active import's `(done, total)`, or
    /// idle when none is active, so a poll racing the end clears the strip.
    pub fn from_active(file: &str, active: Option<(u64, u64)>) -> (r: Self)
        ensures
            active is None ==> r == ImportState::Idle,
            active matches Some(p) ==> (r matches ImportState::Running { file: f, done, total }
                && f@ == file@ && done == p.0 && total == p.1),
    {
        match active {
            Some((done, total)) => ImportState::Running { file: file.to_string(), done, total },
            None => ImportState::Idle,
        }
    }

    /// The file this state is about, if any.
    pub fn file(&self) -> (r: Option<&str>)
        ensures
            r matches Some(f) ==> (file_of(*self) matches Some(g) && f@ == g@),
            r is None ==> file_of(*self) is None,
    {
        match self {
            ImportState::Idle => None,
            ImportState::Running { file, .. } => Some(file.as_str()),
            ImportState::Done { file, .. } => Some(file.as_str()),
            ImportState::Cancelled { file } => Some(file.as_str()),
            ImportState::Unsupported { file, .. } => Some(file.as_str()),
            ImportState::Failed { file, .. } => Some(file.as_str()),
        }
    }

    /// Completion as a whole percent, at most 100; `None` when not running
    /// or the size is unknown.
    pub fn percent(&self) -> (r: Option<u8>)
        ensures
            r matches Some(p) ==> percent_shown(*self) == Some(p as nat),
            r is None ==> percent_shown(*self) is None,
    {
        match self {
            ImportState::Running { done, total, .. } => {
                if *total > 0 {
                    let m: u64 = if *done <= u64::MAX / 100 { *done * 100 } else { u64::MAX };
                    let p = m / *total;
                    let p = if p < 100 { p } else { 100 };
                    Some(p as u8)
                } else {
                    None
                }
            },
            _ => None,
        }
    }

    /// Whether it can still be cancelled: only while running.
    pub fn is_cancellable(&self) -> (r: bool)
        ensures
            r == (*self is Running),
    {
        match self {
            ImportState::Running { .. } => true,
            _ => false,
        }
    }

    /// Whether it is a failure the user must be told about.
    pub fn is_failure(&self) -> (r: bool)
        ensures
            r == (*self is Failed || *self is Unsupported),
    {
        match self {
            ImportState::Failed { .. } | ImportState::Unsupported { .. } => true,
            _ => false,
        }
    }

    /// Whether it will not change on its own, and so can be dismissed.
    pub fn is_terminal(&self) -> (r: bool)
        ensures
            r == !(*self is Idle || *self is Running),
    {
        match self {
            ImportState::Idle | ImportState::Running { .. } => false,
            _ => true,
        }
    }

    /// The strip's class for the state.
    pub fn kind_class(&self) -> (r: &'static str)
        ensures
            r@ == (match *self {
                ImportState::Failed { .. } | ImportState::Unsupported { .. } => "is-error"@,
                ImportState::Cancelled { .. } => "is-warning"@,
                ImportState::Done { .. } => "is-ok"@,
                _ => "is-running"@,
            }),
    {
        match self {
            ImportState::Failed { .. } | ImportState::Unsupported { .. } => "is-error",
            ImportState::Cancelled { .. } => "is-warning",
            ImportState::Done { .. } => "is-ok",
            _ => "is-running",
        }
    }

    /// The line the strip shows.
    pub fn message(&self, cat: &Catalog) -> (r: String)
        ensures
            r@ == message_text(*cat, *self),
    {
        match self {
            ImportState::Idle => String::new(),
            ImportState::Running { done, total, .. } => {
                let head = cat.t("import.running");
                if *total > 0 {
                    let p = self.percent();
                    let pct = match p {
                        Some(v) => v,
                        None => 0,
                    };
                    let ds = decimal_string(pct as u64);
                    let tail = join3(ds, "%", "");
                    proof { reveal_strlit(""); }
                    join3(head, " · ", tail.as_str())
                } else {
                    let hb = human_bytes(*done);
                    join3(head, " · ", hb.as_str())
                }
            },
            ImportState::Done { table, .. } => join3(cat.t("import.done"), " ", table.as_str()),
            ImportState::Cancelled { .. } => cat.t("import.cancelled"),
            ImportState::Unsupported { extension, .. } => match extension {
                Some(e) => join3(cat.t("import.unsupported"), " .", e.as_str()),
                None => cat.t("import.unsupported.no_extension"),
            },
            ImportState::Failed { error, .. } => join3(cat.t("import.failed"), " ", error.as_str()),
        }
    }
}

/// A file's name, or its whole path where it has none.
pub open spec fn label_text(path: Seq<char>, windows: bool) -> Seq<char> {
    match file_name(path, windows) {
        Some(n) => n,
        None => path,
    }
}

/// A file's name, or its whole path where it has none; the path read as
/// the platform reads it (`windows` for Windows).
pub fn file_label(path: &str, windows: bool) -> (r: String)
    ensures
        r@ == label_text(path@, windows),
{
    match file_name_of(path, windows) {
        Some(n) => n,
        None => path.to_string(),
    }
}

/// What the strip says of its file: the label and the format swatch; for a
/// state about no file, nothing and the neutral swatch.
pub fn file_badge(s: &ImportState, windows: bool) -> (r: (String, &'static str))
    ensures
        file_of(*s) matches Some(f) ==> r.0@ == label_text(f@, windows) && r.1@ == swatch(f@, windows),
        file_of(*s) is None ==> r.0@.len() == 0 && r.1@ == "sw-other"@,
{
    match s.file() {
        Some(f) => (file_label(f, windows), format_swatch(f, windows)),
        None => (String::new(), "sw-other"),
    }
}

/// The bar never shows more than 100%, however far the count runs past the
/// size read before the import.
pub proof fn lemma_percent_at_most_100(done: nat, total: nat)
    requires
        total > 0,
    ensures
        percent_of(done, total) <= 100,
{
}

} // verus!
