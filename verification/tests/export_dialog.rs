use dat0_ui::export_dialog::{
    cycle_ix, extension, file_name, join_path, validate_stem, ExportForm, ExportFormat, ExportRequest,
    ExportScope, NameError,
};
use dat0_ui::i18n::Catalog;

#[test]
fn cycle_ix_wraps_both_ways() {
    assert_eq!(cycle_ix(0, 3, 1), 1);
    assert_eq!(cycle_ix(2, 3, 1), 0, "last wraps to first");
    assert_eq!(cycle_ix(0, 3, -1), 2, "first wraps to last");
    assert_eq!(cycle_ix(0, 0, 1), 0, "an empty group cannot panic");
}

#[test]
fn cycle_ix_takes_long_steps_and_extremes() {
    assert_eq!(cycle_ix(1, 3, 7), 2);
    assert_eq!(cycle_ix(1, 3, -7), 0);
    assert_eq!(cycle_ix(0, 2, isize::MIN), 0);
    assert_eq!(cycle_ix(usize::MAX, 3, isize::MAX), ((usize::MAX % 3) + (isize::MAX as usize % 3)) % 3);
}

#[test]
fn the_name_carries_the_format_that_wrote_it() {
    assert_eq!(file_name("export", ExportFormat::Csv), "export.csv");
    assert_eq!(file_name(" q2 ", ExportFormat::Parquet), "q2.parquet");
    assert_eq!(file_name("orders", ExportFormat::Json), "orders.json");
}

#[test]
fn every_format_has_its_extension() {
    assert_eq!(extension(ExportFormat::Csv), "csv");
    assert_eq!(extension(ExportFormat::Json), "json");
    assert_eq!(extension(ExportFormat::Parquet), "parquet");
}

#[test]
fn a_stem_is_refused_for_each_rule() {
    assert_eq!(validate_stem("   "), Err(NameError::Empty));
    assert_eq!(validate_stem("a/b"), Err(NameError::Separator));
    assert_eq!(validate_stem("a\\b"), Err(NameError::Separator));
    assert_eq!(validate_stem("a\u{7}b"), Err(NameError::Control));
    assert_eq!(validate_stem(" q2\n"), Ok(()));
    assert_eq!(validate_stem("q2"), Ok(()));
}

#[test]
fn each_stem_refusal_has_its_message() {
    let mut cat = Catalog::new();
    cat.insert("export.name.empty", "Enter a file name");
    assert_eq!(NameError::Empty.message(&cat), "Enter a file name");
    assert_eq!(NameError::Separator.message(&cat), "export.name.separator");
}

#[test]
fn a_path_is_the_directory_and_the_name() {
    assert_eq!(join_path("/tmp", "a.csv"), "/tmp/a.csv");
    assert_eq!(join_path("/tmp/", "a.csv"), "/tmp/a.csv");
    assert_eq!(join_path("", "a.csv"), "a.csv");
}

#[test]
fn export_waits_for_a_directory_and_a_good_stem() {
    let mut form = ExportForm::new();
    assert_eq!(form.stem(), "export");
    assert!(!form.ready());
    assert_eq!(form.submit(), None);
    form.set_destination("/data");
    assert!(form.ready());
    form.step_format(-1);
    form.step_scope(1);
    assert_eq!(
        form.submit(),
        Some(ExportRequest {
            scope: ExportScope::FullTable,
            format: ExportFormat::Parquet,
            path: "/data/export.parquet".to_string(),
        })
    );
    form.set_stem("  ");
    assert!(!form.ready());
    assert_eq!(form.submit(), None);
}

#[test]
fn a_step_back_undoes_a_step_forward() {
    for n in 1..5usize {
        for c in 0..n {
            assert_eq!(cycle_ix(cycle_ix(c, n, 1), n, -1), c);
            assert_eq!(cycle_ix(cycle_ix(c, n, -1), n, 1), c);
        }
    }
}
