use dat0_ui::i18n::Catalog;
use dat0_ui::import_progress::{file_badge, file_label, DropOutcome, ImportState};

/// Whether paths are read as on Windows, as on the machine running the tests.
fn windows() -> bool {
    std::path::MAIN_SEPARATOR == '\\'
}

fn running(done: u64, total: u64) -> ImportState {
    ImportState::Running { file: "a.csv".to_string(), done, total }
}

#[test]
fn an_unknown_total_is_indeterminate_rather_than_zero_percent() {
    assert_eq!(running(512, 0).percent(), None);
}

#[test]
fn progress_never_exceeds_one_hundred() {
    assert_eq!(running(300, 100).percent(), Some(100));
}

#[test]
fn only_a_running_import_can_be_cancelled() {
    assert!(running(0, 1).is_cancellable());
    assert!(!ImportState::Idle.is_cancellable());
    assert!(!ImportState::Done { file: "a.csv".into(), table: "a".into() }.is_cancellable());
}

#[test]
fn a_huge_count_saturates_rather_than_overflowing() {
    assert_eq!(running(u64::MAX, u64::MAX).percent(), Some(1));
    assert_eq!(running(50, 200).percent(), Some(25));
}

#[test]
fn each_outcome_maps_to_its_own_state() {
    assert_eq!(
        ImportState::from_outcome(&DropOutcome::Registered { table_name: "t".into(), source_path: "/d/t.csv".into() }),
        ImportState::Done { file: "/d/t.csv".into(), table: "t".into() }
    );
    assert_eq!(ImportState::from_outcome(&DropOutcome::OpenWizard { path: "x.csv".into() }), ImportState::Idle);
    assert_eq!(
        ImportState::from_outcome(&DropOutcome::Cancelled { path: "x.csv".into() }),
        ImportState::Cancelled { file: "x.csv".into() }
    );
    let failed = ImportState::from_outcome(&DropOutcome::EngineError { path: "x.csv".into(), error: "bad".into() });
    assert!(failed.is_failure() && failed.is_terminal());
    assert_eq!(failed.kind_class(), "is-error");
}

#[test]
fn a_poll_after_the_end_clears_the_strip() {
    assert_eq!(ImportState::from_active("a.csv", None), ImportState::Idle);
    assert_eq!(ImportState::from_active("a.csv", Some((1, 2))), running(1, 2));
}

#[test]
fn the_line_says_what_the_import_is_doing() {
    let mut cat = Catalog::new();
    cat.insert("import.running", "Importing");
    cat.insert("import.unsupported", "Cannot read");
    assert_eq!(running(50, 200).message(&cat), "Importing · 25%");
    assert_eq!(running(1536, 0).message(&cat), "Importing · 1.5 KB");
    assert_eq!(ImportState::Idle.message(&cat), "");
    assert_eq!(
        ImportState::Unsupported { file: "a.xyz".into(), extension: Some("xyz".into()) }.message(&cat),
        "Cannot read .xyz"
    );
    assert_eq!(
        ImportState::Failed { file: "a".into(), error: "boom".into() }.message(&cat),
        "import.failed boom"
    );
}

#[test]
fn the_badge_names_the_file_and_its_format() {
    assert_eq!(file_label("/data/sales.csv", windows()), "sales.csv");
    assert_eq!(file_label("/", windows()), "/");
    assert_eq!(file_badge(&running(0, 1), windows()), ("a.csv".to_string(), "sw-csv"));
    assert_eq!(file_badge(&ImportState::Idle, windows()), (String::new(), "sw-other"));
}

#[test]
fn a_windows_path_is_labelled_by_its_last_component() {
    assert_eq!(file_label(r"C:\data\sales.csv", true), "sales.csv");
    assert_eq!(file_label(r"C:\data\sales.csv", false), r"C:\data\sales.csv");
    assert_eq!(file_label(r"C:\", true), r"C:\");
}
