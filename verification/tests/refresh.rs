use dat0_ui::i18n::Catalog;
use dat0_ui::refresh::{changed_title, refresh_step, reimport_landed, replayable_on, RefreshStep, Transform};

/// Whether paths are read as on Windows, as on the machine running the tests.
fn windows() -> bool {
    std::path::MAIN_SEPARATOR == '\\'
}

fn cols(v: &[&str]) -> Vec<String> {
    v.iter().map(|s| s.to_string()).collect()
}

#[test]
fn transforms_replay_when_their_columns_survive() {
    let ops = vec![
        Transform::Filter { column: "region".into() },
        Transform::Sort { columns: cols(&["amt"]) },
        Transform::Other,
    ];
    let (kept, drifted) = replayable_on(ops.clone(), &cols(&["region", "amt"]));
    assert!(!drifted);
    assert_eq!(kept, ops);
}

#[test]
fn a_transform_on_a_vanished_column_drops_them_all() {
    let ops = vec![
        Transform::Filter { column: "region".into() },
        Transform::Sort { columns: cols(&["amt", "gone"]) },
    ];
    let (kept, drifted) = replayable_on(ops, &cols(&["region", "amt"]));
    assert!(drifted);
    assert!(kept.is_empty());
}

#[test]
fn a_refresh_asks_first_only_when_work_would_be_lost() {
    assert_eq!(refresh_step(false, true, 1, 0), RefreshStep::Nothing);
    assert_eq!(refresh_step(true, false, 0, 0), RefreshStep::WarnNoFile);
    assert_eq!(refresh_step(true, true, 0, 2), RefreshStep::Confirm);
    assert_eq!(refresh_step(true, true, 0, 0), RefreshStep::Reimport);
}

#[test]
fn a_reimport_under_another_name_is_not_replayed() {
    assert!(reimport_landed("sales", &Ok("sales".to_string())));
    assert!(!reimport_landed("sales", &Ok("sales_2".to_string())));
    assert!(!reimport_landed("sales", &Err("locked".to_string())));
}

#[test]
fn the_changed_banner_names_the_file() {
    let mut cat = Catalog::new();
    cat.insert("livedata.changed.title", "{file} changed on disk");
    assert_eq!(changed_title(&cat, "/data/sales.csv", windows()), "sales.csv changed on disk");
}
