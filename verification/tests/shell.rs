use dat0_ui::chrome::{egress_line, Status};
use dat0_ui::shell::{
    chart_export_file, mode_label, rows_line, surface_action, thousands, ShellAction, ShellCommand,
    ShellContext,
};

fn ctx(read_only: bool, has_selection: bool, has_chart_data: bool, has_desktop: bool) -> ShellContext {
    ShellContext { read_only, has_selection, has_chart_data, has_desktop }
}

#[test]
fn row_counts_are_grouped() {
    assert_eq!(thousands(0), "0");
    assert_eq!(thousands(999), "999");
    assert_eq!(thousands(1_048_576), "1,048,576");
    assert_eq!(thousands(1_200_000_000), "1,200,000,000");
}

#[test]
fn shell_egress_reads_zero_rather_than_disappearing() {
    assert_eq!(egress_line(&Status::new()), "egress 0 B");
}

#[test]
fn the_status_bar_writes_the_rows_in_view() {
    assert_eq!(rows_line(1, 40, 1_048_576), "rows 1–40 / 1,048,576");
    assert_eq!(mode_label(true, true), "read-only");
    assert_eq!(mode_label(false, true), "live");
    assert_eq!(mode_label(false, false), "local");
}

#[test]
fn a_read_only_workspace_refuses_edits_but_copies() {
    let ro = ctx(true, true, false, true);
    assert_eq!(surface_action(ShellCommand::ViewPaste, &ro), ShellAction::WarnReadOnly);
    assert_eq!(surface_action(ShellCommand::ViewUndo, &ro), ShellAction::WarnReadOnly);
    assert_eq!(surface_action(ShellCommand::ViewCut, &ro), ShellAction::CopySelection { cut: true });
    let rw = ctx(false, false, false, true);
    assert_eq!(surface_action(ShellCommand::ViewFillDown, &rw), ShellAction::GridEdit);
    assert_eq!(surface_action(ShellCommand::ViewCopy, &rw), ShellAction::Nothing);
}

#[test]
fn a_chart_export_needs_a_plot_and_a_desktop() {
    assert_eq!(
        surface_action(ShellCommand::ChartExportPng, &ctx(false, false, false, true)),
        ShellAction::WarnNothingToExport
    );
    assert_eq!(surface_action(ShellCommand::ChartExportSvg, &ctx(false, false, true, false)), ShellAction::Nothing);
    assert_eq!(
        surface_action(ShellCommand::ChartExportSvg, &ctx(false, false, true, true)),
        ShellAction::ExportChart { png: false }
    );
    assert_eq!(chart_export_file("", true), "chart.png");
    assert_eq!(chart_export_file("Sales", false), "Sales.svg");
}

#[test]
fn a_workspace_save_needs_a_desktop() {
    assert_eq!(surface_action(ShellCommand::WorkspaceSave, &ctx(false, false, false, false)), ShellAction::Nothing);
    assert_eq!(surface_action(ShellCommand::WorkspaceSave, &ctx(false, false, false, true)), ShellAction::SaveWorkspace);
    assert_eq!(surface_action(ShellCommand::SqlSaveAsTable, &ctx(true, false, false, false)), ShellAction::PromptSaveQuery);
}
