//! The crash and bug report dialog's decisions: what a relaunch after a
//! crash does with the staged report, and what Send hands on.

use vstd::prelude::*;
use crate::text::{trim, trimmed};

verus! {

/// A click on the scrim closes the dialog: closing is the same as Cancel.
pub const SCRIM_DISMISSABLE: bool = true;

/// A crash staged by the last run for the user to report.
#[derive(Clone, PartialEq, Eq, Debug)]
pub struct StagedCrash {
    pub message: String,
    pub backtrace: String,
    pub version: String,
}

impl StagedCrash {
    /// A copy of the report.
    pub fn duplicate(&self) -> (r: Self)
        ensures
            r == *self,
    {
        StagedCrash { message: self.message.clone(), backtrace: self.backtrace.clone(), version: self.version.clone() }
    }
}

/// What a relaunch finds to do.
#[derive(Clone, PartialEq, Eq, Debug)]
pub enum RelaunchAction {
    /// The last run crashed and the user opted in: offer the report.
    ShowCrash(StagedCrash),
    /// A crash marker with no report: sweep it.
    DiscardMarkerOnly,
    /// The user opted out: delete the report unseen.
    DiscardOptOut,
    /// A clean launch.
    Nothing,
}

/// What a relaunch does: the report to prompt with, if any, and whether the
/// staged files are cleared now. An offered report is kept until the user
/// answers.
pub fn relaunch_step(action: RelaunchAction) -> (r: (Option<StagedCrash>, bool))
    ensures
        action matches RelaunchAction::ShowCrash(s) ==> r == (Some(s), false),
        (action is DiscardMarkerOnly || action is DiscardOptOut) ==> r == (None::<StagedCrash>, true),
        action is Nothing ==> r == (None::<StagedCrash>, false),
{
    match action {
        RelaunchAction::ShowCrash(staged) => (Some(staged), false),
        RelaunchAction::DiscardMarkerOnly | RelaunchAction::DiscardOptOut => (None, true),
        RelaunchAction::Nothing => (None, false),
    }
}

/// Which report the dialog is about.
#[derive(Clone, PartialEq, Eq, Debug)]
pub enum ReportKind {
    Crash(StagedCrash),
    Bug,
}

/// A staged crash makes a crash report; none makes a bug report.
pub fn kind_of(staged: Option<&StagedCrash>) -> (r: ReportKind)
    ensures
        staged matches Some(s) ==> r == ReportKind::Crash(*s),
        staged is None ==> r == ReportKind::Bug,
{
    match staged {
        Some(s) => ReportKind::Crash(s.duplicate()),
        None => ReportKind::Bug,
    }
}

/// The note Send hands on: none when the user typed nothing but space; the
/// text as typed otherwise.
pub fn note_to_send(text: &str) -> (r: Option<String>)
    ensures
        trim(text@).len() == 0 ==> r is None,
        trim(text@).len() > 0 ==> (r matches Some(n) && n@ == text@),
{
    let t = trimmed(text);
    if t.as_str().unicode_len() == 0 {
        None
    } else {
        Some(text.to_string())
    }
}

} // verus!
