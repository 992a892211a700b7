use dat0_ui::i18n::Catalog;
use dat0_ui::recovery::{
    key_of, label_of, recovery_rows, section, session_tables, sort_by_dir, sorts_before, RecoveryRow, RestoredSession,
    RestoredTab,
};

#[test]
fn a_row_is_labelled_by_what_it_restores() {
    let mut cat = Catalog::new();
    cat.insert("recovery.row.incomplete_suffix", "(interrupted)");
    let orphan = RecoveryRow::Orphan { dir: "/s/1".into(), tables: vec!["a".into(), "b".into()] };
    assert_eq!(label_of(&cat, &orphan), "a, b");
    let broken = RecoveryRow::Orphan { dir: "/s/2".into(), tables: vec![] };
    assert_eq!(label_of(&cat, &broken), "");
    let cut = RecoveryRow::Incomplete { root: "/p".into() };
    assert_eq!(label_of(&cat, &cut), "/p (interrupted)");
    assert_eq!(key_of(&cut), "/p");
    assert_eq!(key_of(&orphan), "/s/1");
}

#[test]
fn rows_are_grouped_by_kind_in_order() {
    let rows = vec![
        RecoveryRow::Orphan { dir: "/s/1".into(), tables: vec![] },
        RecoveryRow::Incomplete { root: "/p".into() },
        RecoveryRow::Orphan { dir: "/s/2".into(), tables: vec![] },
    ];
    assert_eq!(section(&rows, true), vec![0, 2]);
    assert_eq!(section(&rows, false), vec![1]);
}

#[test]
fn a_session_restores_its_tabs_tables() {
    let s = RestoredSession {
        tabs: vec![
            RestoredTab { table: "t".into(), path: None },
            RestoredTab { table: "u".into(), path: Some("/u.csv".into()) },
        ],
    };
    assert_eq!(session_tables(&s), vec!["t".to_string(), "u".to_string()]);
}

#[test]
fn sessions_are_listed_by_directory_then_cut_short_promotions_as_given() {
    let found = vec![
        ("/s/c".to_string(), vec!["t3".to_string()]),
        ("/s/a".to_string(), vec!["t1".to_string(), "t2".to_string()]),
        ("/s/b".to_string(), vec![]),
    ];
    let incomplete = vec!["/w/z".to_string(), "/w/y".to_string()];
    let rows = recovery_rows(found, &incomplete);
    assert_eq!(
        rows,
        vec![
            RecoveryRow::Orphan { dir: "/s/a".into(), tables: vec!["t1".into(), "t2".into()] },
            RecoveryRow::Orphan { dir: "/s/b".into(), tables: vec![] },
            RecoveryRow::Orphan { dir: "/s/c".into(), tables: vec!["t3".into()] },
            RecoveryRow::Incomplete { root: "/w/z".into() },
            RecoveryRow::Incomplete { root: "/w/y".into() },
        ]
    );
}

#[test]
fn directories_sort_character_by_character_a_prefix_first() {
    assert!(sorts_before("/s/a", "/s/b"));
    assert!(sorts_before("/s/a", "/s/a"));
    assert!(sorts_before("/s/a", "/s/ab"));
    assert!(!sorts_before("/s/ab", "/s/a"));
    assert!(sorts_before("/s/Z", "/s/a"));
    let sorted = sort_by_dir(vec![
        ("b".to_string(), vec![]),
        ("a".to_string(), vec![]),
        ("ab".to_string(), vec![]),
    ]);
    let dirs: Vec<&str> = sorted.iter().map(|p| p.0.as_str()).collect();
    assert_eq!(dirs, vec!["a", "ab", "b"]);
}
