use dat0_ui::chrome::{egress_line, hero_privacy, human_bytes, nothing_sent, palette_chord, run_chord, sent_figure, session_line, Status};
use dat0_ui::i18n::Catalog;

fn en() -> Catalog {
    let mut c = Catalog::new();
    c.insert("sidebar.window", "window");
    c.insert("sidebar.windows", "windows");
    c.insert("sidebar.tab", "tab");
    c.insert("sidebar.tabs", "tabs");
    c.insert("hero.privacy", "0 bytes left this machine");
    c.insert("hero.privacy_sent", "{sent} left this machine");
    c
}

#[test]
fn chrome_egress_reads_zero_rather_than_disappearing() {
    assert_eq!(egress_line(&Status::new()), "egress 0 B");
}

#[test]
fn an_unmetered_channel_makes_the_figure_a_floor() {
    let status = Status {
        egress: 3 * 1024,
        egress_floor: true,
        ..Status::new()
    };
    assert_eq!(egress_line(&status), "egress 3.0 KB+");
}

#[test]
fn only_nothing_sent_is_nothing_sent() {
    assert!(nothing_sent(0, false));
    assert!(!nothing_sent(1, false), "a byte is not nothing");
    assert!(
        !nothing_sent(0, true),
        "a channel dat0 cannot meter may have sent"
    );
}

#[test]
fn the_hero_says_what_left_once_anything_has() {
    let cat = en();
    assert_eq!(hero_privacy(&cat, 0, false), cat.t("hero.privacy"));
    let sent = hero_privacy(&cat, 1536, false);
    assert!(sent.contains("1.5 KB"), "{sent}");
    assert!(!sent.contains("0 bytes"), "{sent}");
    assert!(hero_privacy(&cat, 0, true).contains("0 B+"));
}

#[test]
fn the_footer_counts_one_and_many() {
    let cat = en();
    assert_eq!(session_line(&cat, 1, 1), "session · 1 window · 1 tab");
    assert_eq!(session_line(&cat, 2, 0), "session · 2 windows · 0 tabs");
}

#[test]
fn bytes_are_shown_at_one_decimal_in_binary_units() {
    assert_eq!(human_bytes(0), "0 B");
    assert_eq!(human_bytes(1023), "1023 B");
    assert_eq!(human_bytes(1024), "1.0 KB");
    assert_eq!(human_bytes(1536), "1.5 KB");
    // A tie rounds to the even tenth, as `{:.1}` does.
    assert_eq!(human_bytes(1280), "1.2 KB");
    assert_eq!(human_bytes(3 * 1024 * 1024), "3.0 MB");
    assert_eq!(human_bytes(1024 * 1024 * 1024), "1.0 GB");
    assert_eq!(human_bytes(1024u64.pow(4)), "1.0 TB");
    assert_eq!(human_bytes(1024u64.pow(5)), "1024.0 TB");
    assert_eq!(human_bytes(1048575), "1024.0 KB");
}

#[test]
fn the_sent_figure_marks_a_floor() {
    assert_eq!(sent_figure(2048, false), "2.0 KB");
    assert_eq!(sent_figure(2048, true), "2.0 KB+");
}

#[test]
fn the_run_hint_is_this_platform_s_chord() {
    assert_eq!(run_chord(Some("cmd-enter"), true), "⌘⏎");
    assert_eq!(run_chord(Some("ctrl-enter"), false), "Ctrl+⏎", "not ⌘ off macOS");
    assert_eq!(run_chord(None, false), "");
}

#[test]
fn the_palette_hint_is_this_platform_s_chord() {
    assert_eq!(palette_chord(Some("cmd-k"), true), "⌘K");
    assert_eq!(palette_chord(Some("ctrl-k"), false), "Ctrl+K");
}
