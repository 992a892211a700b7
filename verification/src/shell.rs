//! The workbench shell's own decisions: what each command it owns does in
//! the state the window is in, and the status bar's figures.

use vstd::prelude::*;
use crate::text::{chars_of, decimal, decimal_string, string_of_range};

verus! {

/// A count in decimal, grouped in threes from the right with commas.
pub open spec fn grouped(d: Seq<char>) -> Seq<char>
    decreases d.len(),
{
    if d.len() <= 3 { d } else { grouped(d.take(d.len() - 3)) + seq![','] + d.skip(d.len() - 3) }
}

fn grouped_prefix(v: &Vec<char>, end: usize) -> (r: String)
    requires
        end <= v@.len(),
    ensures
        r@ == grouped(v@.take(end as int)),
    decreases end,
{
    if end <= 3 {
        return string_of_range(v, 0, end);
    }
    let mut s = grouped_prefix(v, end - 3);
    s.append(",");
    let tail = string_of_range(v, end - 3, end);
    s.append(tail.as_str());
    proof {
        reveal_strlit(",");
        let t = v@.take(end as int);
        assert(t.take(t.len() - 3) =~= v@.take(end - 3));
        assert(t.skip(t.len() - 3) =~= v@.subrange(end - 3, end as int));
    }
    s
}

/// A count grouped with commas, the way the design writes row counts.
pub fn thousands(n: u64) -> (r: String)
    ensures
        r@ == grouped(decimal(n as nat)),
{
    let d = decimal_string(n);
    let v = chars_of(d.as_str());
    let r = grouped_prefix(&v, v.len());
    assert(v@.take(v@.len() as int) =~= v@);
    r
}

/// The status bar's rows figure: the first and last row in view and the
/// total, each grouped.
pub open spec fn rows_text(first: nat, last: nat, total: nat) -> Seq<char> {
    "rows "@ + grouped(decimal(first)) + "–"@ + grouped(decimal(last)) + " / "@ + grouped(decimal(total))
}

/// The status bar's rows figure.
pub fn rows_line(first: u64, last: u64, total: u64) -> (r: String)
    ensures
        r@ == rows_text(first as nat, last as nat, total as nat),
{
    let mut s = "rows ".to_string();
    s.append(thousands(first).as_str());
    s.append("–");
    s.append(thousands(last).as_str());
    s.append(" / ");
    s.append(thousands(total).as_str());
    s
}

/// The title bar's badge: read-only before live, live before local.
pub fn mode_label(read_only: bool, live: bool) -> (r: &'static str)
    ensures
        r@ == (if read_only { "read-only"@ } else if live { "live"@ } else { "local"@ }),
{
    if read_only { "read-only" } else if live { "live" } else { "local" }
}

/// A command whose state belongs to the shell.
#[derive(Clone, Copy, PartialEq, Eq, Debug, Structural)]
pub enum ShellCommand {
    SqlNewTab,
    SqlCloseTab,
    SqlRun,
    SqlCancel,
    SqlHistory,
    SqlLoadQuery,
    SqlSaveQuery,
    SqlSaveAsTable,
    ChartExportPng,
    ChartExportSvg,
    ViewCopy,
    ViewCut,
    ViewPaste,
    ViewFillDown,
    ViewSetNull,
    ViewSetValue,
    ViewDeleteRows,
    ViewDeleteColumn,
    ViewUndo,
    ViewRedo,
    ViewSaveAsTable,
    ViewExport,
    AiPanelOpen,
    RecoveryReview,
    WorkspaceSave,
    PerfHudToggle,
}

/// What the window is doing when a command arrives.
pub struct ShellContext {
    pub read_only: bool,
    pub has_selection: bool,
    pub has_chart_data: bool,
    pub has_desktop: bool,
}

/// What the shell does for a command.
#[derive(PartialEq, Eq, Debug)]
pub enum ShellAction {
    OpenConsoleTab,
    CloseConsoleTab,
    RunConsole,
    CancelConsole,
    ShowHistory,
    LoadQuery,
    PromptSaveQuery,
    /// Nothing plotted: a warning, not an export.
    WarnNothingToExport,
    /// Ask where to save the chart as PNG or SVG, suggesting
    /// [`chart_export_file`].
    ExportChart { png: bool },
    /// A copy (or cut) of the selection.
    CopySelection { cut: bool },
    /// A grid edit, which the grid performs.
    GridEdit,
    /// Refused in a read-only workspace, with a warning.
    WarnReadOnly,
    OpenExportDialog,
    OpenAiPanel,
    OpenRecovery,
    /// Ask where to save the workspace, suggesting `workspace.dat0`.
    SaveWorkspace,
    TogglePerfHud,
    /// Nothing to do here: no desktop to ask for a path, or no selection.
    Nothing,
}

/// The file a chart export suggests: its title, or `chart` for an untitled
/// one, and the format's extension.
pub open spec fn chart_file_text(title: Seq<char>, png: bool) -> Seq<char> {
    (if title.len() == 0 { "chart"@ } else { title }) + "."@ + (if png { "png"@ } else { "svg"@ })
}

/// What the shell does for `cmd` in the window's state: chart exports need
/// something plotted and a desktop to ask for a path; a copy needs a
/// selection; every grid edit but copy is refused read-only; a workspace save
/// needs a desktop.
pub open spec fn action_for(cmd: ShellCommand, ctx: ShellContext) -> ShellAction {
    match cmd {
        ShellCommand::SqlNewTab => ShellAction::OpenConsoleTab,
        ShellCommand::SqlCloseTab => ShellAction::CloseConsoleTab,
        ShellCommand::SqlRun => ShellAction::RunConsole,
        ShellCommand::SqlCancel => ShellAction::CancelConsole,
        ShellCommand::SqlHistory => ShellAction::ShowHistory,
        ShellCommand::SqlLoadQuery => ShellAction::LoadQuery,
        ShellCommand::SqlSaveQuery | ShellCommand::SqlSaveAsTable => ShellAction::PromptSaveQuery,
        ShellCommand::ChartExportPng | ShellCommand::ChartExportSvg => {
            if !ctx.has_chart_data {
                ShellAction::WarnNothingToExport
            } else if !ctx.has_desktop {
                ShellAction::Nothing
            } else {
                ShellAction::ExportChart { png: cmd == ShellCommand::ChartExportPng }
            }
        },
        ShellCommand::ViewCopy | ShellCommand::ViewCut => {
            if ctx.has_selection { ShellAction::CopySelection { cut: cmd == ShellCommand::ViewCut } } else { ShellAction::Nothing }
        },
        ShellCommand::ViewExport => ShellAction::OpenExportDialog,
        ShellCommand::AiPanelOpen => ShellAction::OpenAiPanel,
        ShellCommand::RecoveryReview => ShellAction::OpenRecovery,
        ShellCommand::WorkspaceSave => if ctx.has_desktop { ShellAction::SaveWorkspace } else { ShellAction::Nothing },
        ShellCommand::PerfHudToggle => ShellAction::TogglePerfHud,
        _ => if ctx.read_only { ShellAction::WarnReadOnly } else { ShellAction::GridEdit },
    }
}

/// The file a chart export suggests.
pub fn chart_export_file(title: &str, png: bool) -> (r: String)
    ensures
        r@ == chart_file_text(title@, png),
{
    let mut file = if title.unicode_len() == 0 { "chart".to_string() } else { title.to_string() };
    file.append(".");
    file.append(if png { "png" } else { "svg" });
    file
}

/// What the shell does for `cmd` in the window's state.
pub fn surface_action(cmd: ShellCommand, ctx: &ShellContext) -> (r: ShellAction)
    ensures
        r == action_for(cmd, *ctx),
{
    match cmd {
        ShellCommand::SqlNewTab => ShellAction::OpenConsoleTab,
        ShellCommand::SqlCloseTab => ShellAction::CloseConsoleTab,
        ShellCommand::SqlRun => ShellAction::RunConsole,
        ShellCommand::SqlCancel => ShellAction::CancelConsole,
        ShellCommand::SqlHistory => ShellAction::ShowHistory,
        ShellCommand::SqlLoadQuery => ShellAction::LoadQuery,
        ShellCommand::SqlSaveQuery | ShellCommand::SqlSaveAsTable => ShellAction::PromptSaveQuery,
        ShellCommand::ChartExportPng | ShellCommand::ChartExportSvg => {
            if !ctx.has_chart_data {
                return ShellAction::WarnNothingToExport;
            }
            if !ctx.has_desktop {
                return ShellAction::Nothing;
            }
            let png = match cmd {
                ShellCommand::ChartExportPng => true,
                _ => false,
            };
            ShellAction::ExportChart { png }
        },
        ShellCommand::ViewCopy | ShellCommand::ViewCut => {
            if ctx.has_selection {
                ShellAction::CopySelection {
                    cut: match cmd {
                        ShellCommand::ViewCut => true,
                        _ => false,
                    },
                }
            } else {
                ShellAction::Nothing
            }
        },
        ShellCommand::ViewExport => ShellAction::OpenExportDialog,
        ShellCommand::AiPanelOpen => ShellAction::OpenAiPanel,
        ShellCommand::RecoveryReview => ShellAction::OpenRecovery,
        ShellCommand::WorkspaceSave => if ctx.has_desktop { ShellAction::SaveWorkspace } else { ShellAction::Nothing },
        ShellCommand::PerfHudToggle => ShellAction::TogglePerfHud,
        _ => if ctx.read_only { ShellAction::WarnReadOnly } else { ShellAction::GridEdit },
    }
}

/// A read-only workspace never has a grid edit performed: every edit command
/// is refused with a warning.
pub proof fn lemma_read_only_refuses_edits(cmd: ShellCommand, ctx: ShellContext)
    requires
        ctx.read_only,
    ensures
        action_for(cmd, ctx) != ShellAction::GridEdit,
{
}

} // verus!
