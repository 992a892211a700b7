use dat0_ui::perf_hud::{pages_line, rss_line};

#[test]
fn unmeasured_counters_read_as_dashes_never_zero() {
    assert_eq!(rss_line(None), "rss \u{2014}");
    assert_eq!(pages_line(None), "pages \u{2014}");
}

#[test]
fn measured_counters_read_as_their_figures() {
    assert_eq!(rss_line(Some(3 * 1024 * 1024)), "rss 3.0 MB");
    assert_eq!(pages_line(Some((5, 64))), "pages 5 / 64");
}
