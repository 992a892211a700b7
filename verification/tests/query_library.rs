use dat0_ui::i18n::Catalog;
use dat0_ui::query_library::{first_line, outcome_meta, HistoryEntry, HistoryList, PREVIEW_CHARS};

fn entry(sql: &str) -> HistoryEntry {
    HistoryEntry { sql: sql.to_string(), ok: true, elapsed_ms: 12 }
}

#[test]
fn first_line_truncates_and_takes_first_line() {
    assert_eq!(first_line("select 1\nfrom t", 80), "select 1");
    assert_eq!(first_line(&"x".repeat(100), 10), format!("{}…", "x".repeat(10)));
}

#[test]
fn a_multibyte_preview_does_not_split_a_character() {
    assert_eq!(first_line("émoji ☕ here", 4), "émoj…");
}

#[test]
fn a_preview_is_trimmed_and_a_line_of_exactly_max_is_whole() {
    assert_eq!(first_line("   select 2  \r\nmore", PREVIEW_CHARS), "select 2");
    assert_eq!(first_line("abcd", 4), "abcd");
    assert_eq!(first_line("", 4), "");
    assert_eq!(first_line("\nsecond", 4), "");
}

#[test]
fn the_trailer_says_how_the_run_went() {
    let mut cat = Catalog::new();
    cat.insert("sql.history.ok", "ok");
    let mut e = entry("select 1");
    assert_eq!(outcome_meta(&cat, &e), "ok · 12 ms");
    e.ok = false;
    e.elapsed_ms = 0;
    assert_eq!(outcome_meta(&cat, &e), "sql.history.err · 0 ms");
}

#[test]
fn the_newest_run_is_first_and_the_arrows_clamp() {
    let entries = vec![entry("old"), entry("mid"), entry("new")];
    let mut list = HistoryList::new();
    assert_eq!(list.pick(&entries).as_deref(), Some("new"));
    list.up(3);
    assert_eq!(list.active, 0);
    list.down(3);
    list.down(3);
    list.down(3);
    assert_eq!(list.active, 2);
    assert_eq!(list.pick(&entries).as_deref(), Some("old"));
    assert_eq!(list.pick(&Vec::new()), None);
    list.active = 9;
    assert_eq!(list.active_ix(3), 2);
}
