use dat0_ui::a11y::{format_swatch, A11y, AccessRole, TabStop};

/// Whether paths are read as on Windows, as on the machine running the tests.
fn windows() -> bool {
    std::path::MAIN_SEPARATOR == '\\'
}

#[test]
fn roles_map_to_real_aria_values() {
    assert_eq!(AccessRole::Button.aria(), "button");
    assert_eq!(AccessRole::Label.aria(), "note");
    assert_eq!(AccessRole::Cell.aria(), "gridcell");
    assert_eq!(AccessRole::Row.aria(), "row");
    assert_eq!(AccessRole::Dialog.aria(), "dialog");
    assert_eq!(AccessRole::Alert.aria(), "alert");
}

#[test]
fn cells_and_rows_are_not_tab_stops() {
    assert_eq!(
        A11y::new("cell-0-0", AccessRole::Cell, "1").tabindex(),
        Some("-1")
    );
    assert_eq!(
        A11y::new("row-0", AccessRole::Row, "row 0").tabindex(),
        Some("-1")
    );
}

#[test]
fn buttons_are_tab_stops_and_labels_are_not() {
    assert_eq!(
        A11y::new("run", AccessRole::Button, "Run").tabindex(),
        Some("0")
    );
    assert_eq!(A11y::new("hint", AccessRole::Label, "hint").tabindex(), None);
}

#[test]
fn tab_participation_can_be_overridden() {
    let a = A11y::new("cell-0-0", AccessRole::Cell, "1").tab(TabStop::Yes);
    assert_eq!(a.tabindex(), Some("0"));
}

#[test]
fn every_shipped_format_has_its_own_swatch() {
    let cases = [
        ("sales.csv", "sw-csv"),
        ("SALES.CSV", "sw-csv"),
        ("events.tsv", "sw-csv"),
        ("events.parquet", "sw-parquet"),
        ("chinook.sqlite", "sw-sqlite"),
        ("chinook.db", "sw-sqlite"),
        ("log.jsonl", "sw-json"),
        ("log.ndjson", "sw-json"),
        ("q2.dat0", "sw-dat0"),
    ];
    for (name, want) in cases {
        assert_eq!(format_swatch(name, windows()), want, "{name}");
    }
}

#[test]
fn an_unknown_or_absent_extension_still_gets_a_swatch() {
    assert_eq!(format_swatch("notes.xyz", windows()), "sw-other");
    assert_eq!(format_swatch("Makefile", windows()), "sw-other");
    assert_eq!(format_swatch("", windows()), "sw-other");
}

#[test]
fn a_dotfile_is_not_mistaken_for_an_extension() {
    assert_eq!(format_swatch(".csv", windows()), "sw-other");
}

#[test]
fn tab_stops_map_to_their_tabindex_values() {
    assert_eq!(TabStop::Yes.index(), Some(0));
    assert_eq!(TabStop::Programmatic.index(), Some(-1));
    assert_eq!(TabStop::No.index(), None);
}

#[test]
fn every_role_gets_its_default_tab_stop() {
    assert_eq!(A11y::new("t", AccessRole::Tab, "t").tab, TabStop::Programmatic);
    assert_eq!(A11y::new("n", AccessRole::Navigation, "n").tab, TabStop::No);
    assert_eq!(A11y::new("d", AccessRole::Dialog, "d").tab, TabStop::Programmatic);
    assert_eq!(A11y::new("a", AccessRole::Alert, "a").tab, TabStop::Programmatic);
    assert_eq!(AccessRole::Tab.aria(), "tab");
    assert_eq!(AccessRole::Navigation.aria(), "navigation");
}

#[test]
fn the_swatch_reads_the_file_name_not_the_folder() {
    assert_eq!(format_swatch("/data/sales.parquet/", windows()), "sw-parquet");
    assert_eq!(format_swatch("/data/x.pq/.", windows()), "sw-parquet");
    assert_eq!(format_swatch("/data.csv/readme", windows()), "sw-other");
    assert_eq!(format_swatch("a/..", windows()), "sw-other");
    assert_eq!(format_swatch("archive.tar.sqlite3", windows()), "sw-sqlite");
    assert_eq!(format_swatch("weird.", windows()), "sw-other");
}

#[test]
fn the_letter_case_of_a_path_keeps_its_swatch() {
    for (a, b) in [
        ("sales.csv", "SALES.CSV"),
        ("/data/x.Parquet", "/DATA/X.pArQuEt"),
        ("db.SQLite3", "db.sqlite3"),
        ("notes.TXT", "notes.txt"),
        ("README", "readme"),
    ] {
        assert_eq!(format_swatch(a, windows()), format_swatch(b, windows()));
    }
}

#[test]
fn windows_paths_split_at_backslashes_after_the_drive() {
    assert_eq!(format_swatch(r"C:\data\.csv", true), "sw-other");
    assert_eq!(format_swatch(r"C:\data\.csv", false), "sw-csv");
    assert_eq!(format_swatch(r"C:\data\sales.csv", true), "sw-csv");
    assert_eq!(format_swatch(r"C:.csv", true), "sw-other");
    assert_eq!(format_swatch(r"C:sales.Parquet", true), "sw-parquet");
    assert_eq!(format_swatch(r"D:\x.pq\.", true), "sw-parquet");
    assert_eq!(format_swatch(r"a\b.json/", true), "sw-json");
    assert_eq!(format_swatch(r"a.csv\..", true), "sw-other");
}
