use dat0_ui::i18n::Catalog;
use dat0_ui::pipeline_bar::{base_label, base_swatch, chip_class, jump_target, step_is_past};

/// Whether paths are read as on Windows, as on the machine running the tests.
fn windows() -> bool {
    std::path::MAIN_SEPARATOR == '\\'
}

#[test]
fn steps_past_the_cursor_are_undone() {
    assert!(!step_is_past(0, 2));
    assert!(step_is_past(2, 2));
    assert_eq!(chip_class(3, 2), "d0-chip is-past");
    assert_eq!(chip_class(1, 2), "d0-chip");
    assert_eq!(jump_target(1), 2);
}

#[test]
fn the_base_names_its_source() {
    let mut cat = Catalog::new();
    cat.insert("pipeline.base", "Base");
    assert_eq!(base_label(&cat, None), "Base");
    assert_eq!(base_label(&cat, Some("/d/sales.csv")), "/d/sales.csv");
    assert_eq!(base_swatch(Some("/d/sales.csv"), windows()), Some("sw-csv"));
    assert_eq!(base_swatch(None, windows()), None);
}
