use dat0_ui::i18n::Catalog;
use dat0_ui::settings_ui::{
    budget_edit, changed, next_log_level, next_theme, parse_u32, section_label, sections,
};

const THEMES: [&str; 3] = ["light", "dark", "high-contrast"];

#[test]
fn the_section_order_is_the_gpui_order() {
    let ids: Vec<&str> = sections().iter().map(|s| s.id).collect();
    assert_eq!(
        ids,
        ["profile", "theme", "memory_budget", "motherduck", "ai", "telemetry", "workspace", "updates", "advanced"]
    );
}

#[test]
fn every_section_label_resolves() {
    let mut cat = Catalog::new();
    for s in sections() {
        cat.insert(s.name_key, &format!("{} label", s.id));
    }
    for s in sections() {
        assert_ne!(section_label(&cat, &s), s.name_key, "{}", s.id);
    }
}

#[test]
fn the_theme_cycle_wraps_and_tolerates_an_unknown_id() {
    let mut seen = Vec::new();
    let mut cur = THEMES[0];
    for _ in 0..THEMES.len() {
        seen.push(cur);
        cur = next_theme(&THEMES, cur);
    }
    assert_eq!(cur, THEMES[0], "the cycle wraps");
    assert_eq!(seen.len(), THEMES.len());
    assert_eq!(next_theme(&THEMES, "solarized"), THEMES[1]);
}

#[test]
fn the_log_level_cycle_starts_from_the_default_when_unrecognised() {
    assert_eq!(next_log_level("error"), "warn");
    assert_eq!(next_log_level("debug"), "error");
    assert_eq!(next_log_level("trace,hyper=off"), "debug");
}

#[test]
fn only_a_changed_field_is_written() {
    assert!(!changed("512", "512"));
    assert!(changed("512", "51"));
}

#[test]
fn a_budget_persists_only_once_it_reads_as_a_number() {
    let e = budget_edit("512", " 1024 ");
    assert_eq!(e.shown, "1024");
    assert!(e.changed);
    assert_eq!(e.persist, Some(1024));
    let e = budget_edit("512", "");
    assert!(e.changed);
    assert_eq!(e.persist, None, "clearing the field does not persist 0 MB");
    let e = budget_edit("1024", "1024");
    assert!(!e.changed);
    assert_eq!(e.persist, None);
}

#[test]
fn numbers_parse_as_the_standard_library_parses_them() {
    for s in ["0", "+7", "4294967295", "4294967296", "", "+", "-1", "1 2", "12a", "007"] {
        assert_eq!(parse_u32(s), s.parse::<u32>().ok(), "{s:?}");
    }
}
