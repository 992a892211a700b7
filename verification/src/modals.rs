//! The modal host's rules per kind of modal: its stable slug, whether a
//! click on the scrim closes it, and what Escape does on the way out.

use vstd::prelude::*;

verus! {

/// The scrim's element id.
pub const SCRIM_ID: &'static str = "modal-scrim";
/// The dialog's element id.
pub const DIALOG_ID: &'static str = "modal";
/// The close button's element id.
pub const CLOSE_ID: &'static str = "modal-close";

/// The kinds of modal the host shows.
#[derive(Clone, Copy, PartialEq, Eq, Debug, Structural)]
pub enum ModalKind {
    About,
    Onboarding,
    NamePrompt,
    Export,
    Connections,
    CrashReport,
    WorkspaceInUse,
    LiveRefresh,
    SavedQueries,
    QueryLibrary,
    ImportWizard,
    Recovery,
    Ai,
    Update,
}

/// A modal's stable slug.
pub open spec fn slug_text(kind: ModalKind) -> Seq<char> {
    match kind {
        ModalKind::About => "about"@,
        ModalKind::Onboarding => "tour"@,
        ModalKind::NamePrompt => "name"@,
        ModalKind::Export => "export"@,
        ModalKind::Connections => "connections"@,
        ModalKind::CrashReport => "report"@,
        ModalKind::WorkspaceInUse => "workspace"@,
        ModalKind::LiveRefresh => "refresh"@,
        ModalKind::SavedQueries => "saved"@,
        ModalKind::QueryLibrary => "history"@,
        ModalKind::ImportWizard => "import"@,
        ModalKind::Recovery => "recovery"@,
        ModalKind::Ai => "ai"@,
        ModalKind::Update => "update"@,
    }
}

/// A modal's stable slug.
pub fn slug(kind: ModalKind) -> (r: &'static str)
    ensures
        r@ == slug_text(kind),
{
    match kind {
        ModalKind::About => "about",
        ModalKind::Onboarding => "tour",
        ModalKind::NamePrompt => "name",
        ModalKind::Export => "export",
        ModalKind::Connections => "connections",
        ModalKind::CrashReport => "report",
        ModalKind::WorkspaceInUse => "workspace",
        ModalKind::LiveRefresh => "refresh",
        ModalKind::SavedQueries => "saved",
        ModalKind::QueryLibrary => "history",
        ModalKind::ImportWizard => "import",
        ModalKind::Recovery => "recovery",
        ModalKind::Ai => "ai",
        ModalKind::Update => "update",
    }
}

/// Whether a click on the scrim closes a modal: only where closing loses
/// nothing. A form, a confirmation or the tour is not closed by a stray
/// click.
pub open spec fn scrim_closes(kind: ModalKind) -> bool {
    match kind {
        ModalKind::About | ModalKind::CrashReport | ModalKind::Recovery => true,
        ModalKind::SavedQueries | ModalKind::QueryLibrary | ModalKind::Ai => true,
        _ => false,
    }
}

/// Whether a click on the scrim closes a modal.
pub fn scrim_dismissable(kind: ModalKind) -> (r: bool)
    ensures
        r == scrim_closes(kind),
{
    match kind {
        ModalKind::About => crate::about::SCRIM_DISMISSABLE,
        ModalKind::CrashReport => crate::crash_report::SCRIM_DISMISSABLE,
        ModalKind::LiveRefresh => crate::live_refresh::SCRIM_DISMISSABLE,
        ModalKind::Onboarding => crate::onboarding::SCRIM_DISMISSABLE,
        ModalKind::Recovery => crate::recovery::SCRIM_DISMISSABLE,
        ModalKind::WorkspaceInUse => false,
        ModalKind::Update => false,
        ModalKind::SavedQueries | ModalKind::QueryLibrary => true,
        ModalKind::Ai => true,
        ModalKind::NamePrompt | ModalKind::Export | ModalKind::Connections | ModalKind::ImportWizard => false,
    }
}

/// What leaving a modal by Escape or ✕ does besides closing it.
#[derive(Clone, Copy, PartialEq, Eq, Debug, Structural)]
pub enum CancelEffect {
    /// The staged crash report is cleared.
    ClearStagedCrash,
    /// The tour is marked seen, so it does not come back every launch.
    MarkTourSeen,
    /// The modal's requester is told it was cancelled.
    ReplyCancelled,
    /// Nothing more.
    Nothing,
}

/// What leaving a modal by Escape or ✕ does besides closing it.
pub fn cancel_effect(kind: ModalKind) -> (r: CancelEffect)
    ensures
        r == (match kind {
            ModalKind::CrashReport => CancelEffect::ClearStagedCrash,
            ModalKind::Onboarding => CancelEffect::MarkTourSeen,
            ModalKind::About | ModalKind::Ai => CancelEffect::Nothing,
            _ => CancelEffect::ReplyCancelled,
        }),
{
    match kind {
        ModalKind::CrashReport => CancelEffect::ClearStagedCrash,
        ModalKind::Onboarding => CancelEffect::MarkTourSeen,
        ModalKind::About | ModalKind::Ai => CancelEffect::Nothing,
        _ => CancelEffect::ReplyCancelled,
    }
}

/// What a key does while a modal is open.
#[derive(Clone, Copy, PartialEq, Eq, Debug, Structural)]
pub enum TrapAction {
    /// Escape: close.
    Close,
    /// Tab and Shift+Tab: move focus within the dialog.
    Cycle(isize),
    /// Anything else: the page's.
    Fallthrough,
}

/// A key binding's action, as the modal trap reads it.
#[derive(Clone, Copy, PartialEq, Eq, Debug, Structural)]
pub enum BoundAction {
    Escape,
    Tab,
    TabPrev,
    Other,
}

/// What a bound key does while a modal is open: focus never leaves it.
pub fn trap_action(bound: Option<BoundAction>) -> (r: TrapAction)
    ensures
        r == (match bound {
            Some(BoundAction::Escape) => TrapAction::Close,
            Some(BoundAction::Tab) => TrapAction::Cycle(1isize),
            Some(BoundAction::TabPrev) => TrapAction::Cycle(-1isize),
            _ => TrapAction::Fallthrough,
        }),
{
    match bound {
        Some(BoundAction::Escape) => TrapAction::Close,
        Some(BoundAction::Tab) => TrapAction::Cycle(1),
        Some(BoundAction::TabPrev) => TrapAction::Cycle(-1),
        _ => TrapAction::Fallthrough,
    }
}

/// What a modal's panel answered from one of its own controls.
#[derive(Clone, Copy, PartialEq, Eq, Debug, Structural)]
pub enum PanelAnswer {
    /// The about box, the tour or the crash report is done.
    Finished,
    /// A prompt or a gate was confirmed: a name, "Open anyway", "Refresh anyway".
    Confirmed,
    /// The panel's own Cancel or Close button.
    Cancelled,
    /// The export dialog asks the opener for a destination folder.
    BrowseDestination,
    /// The export dialog's Export.
    Export,
    /// The import wizard's Import.
    Import,
    /// A saved query was picked.
    QueryPicked,
    /// A saved query was deleted from the list.
    QueryDeleted,
    /// SQL was taken from the history.
    SqlPicked,
    /// A recovered workspace is to be opened.
    RecoveryOpen,
    /// An interrupted promotion is to be resumed.
    RecoveryResume,
    /// Anything done in the connections panel: connect, test, attach, detach.
    Connections,
    /// The update prompt's Install.
    Install,
}

/// Whether the modal closes after its panel's answer. Three answers keep it
/// open: asking for a destination (the dialog keeps its typed file name until
/// the opener fills the folder in), anything done in the connections panel
/// (a user connects, attaches and tests several times in one visit), and
/// deleting a saved query (a list edit, not a choice).
pub open spec fn answer_closes(a: PanelAnswer) -> bool {
    match a {
        PanelAnswer::BrowseDestination | PanelAnswer::Connections | PanelAnswer::QueryDeleted => false,
        _ => true,
    }
}

/// Whether the modal closes after its panel's answer.
pub fn closes_after(a: PanelAnswer) -> (r: bool)
    ensures
        r == answer_closes(a),
{
    match a {
        PanelAnswer::BrowseDestination | PanelAnswer::Connections | PanelAnswer::QueryDeleted => false,
        _ => true,
    }
}

} // verus!
