use dat0_ui::scroll::{visible_window, window, window_start, MAX_RENDER_COLS, MAX_RENDER_ROWS};

#[test]
fn overscan_is_applied_on_both_sides_once_away_from_the_edge() {
    let start = window_start(100, 4);
    assert_eq!(start, 96);
    assert_eq!(window(start, 124, 1_000_000, 4, 400), 96..128);
}

#[test]
fn the_window_starts_at_the_first_row_near_the_top() {
    assert_eq!(window_start(2, 4), 0);
    assert_eq!(window(0, 24, 1_000_000, 4, 400), 0..28);
}

#[test]
fn the_window_never_runs_past_the_data() {
    let r = visible_window(0, 24, 6, 0, 8, 3);
    assert_eq!(r.rows, 0..6);
    assert_eq!(r.cols, 0..3);
}

#[test]
fn a_viewport_as_tall_as_its_canvas_still_renders_a_bounded_window() {
    let r = visible_window(0, 1_153_846, 2_000_000, 0, 5000, 5000);
    assert_eq!(r.rows.len(), MAX_RENDER_ROWS);
    assert_eq!(r.cols.len(), MAX_RENDER_COLS);
}

#[test]
fn an_empty_table_yields_an_empty_window_rather_than_a_panic() {
    let r = visible_window(0, 24, 0, 0, 0, 0);
    assert!(r.rows.is_empty());
    assert!(r.cols.is_empty());
}

#[test]
fn a_window_scrolled_past_the_data_is_empty() {
    let r = window(500, 530, 100, 4, 400);
    assert_eq!(r, 500..500);
}
