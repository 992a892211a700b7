use dat0_ui::grid::{click_action, enter_edits, moves_cursor, page_rows, reorder_drop, starts_drag, ClickAction};

#[test]
fn a_context_click_keeps_a_selection_it_lands_in() {
    assert_eq!(click_action(true, false, false, false, false, true), ClickAction::KeepForMenu);
    assert_eq!(click_action(true, false, false, false, false, false), ClickAction::SelectForMenu);
    assert_eq!(click_action(false, true, false, false, true, false), ClickAction::SelectForMenu, "ctrl-click on macOS");
    assert!(!starts_drag(ClickAction::KeepForMenu));
}

#[test]
fn modifiers_extend_or_add() {
    assert_eq!(click_action(false, false, false, true, false, false), ClickAction::Extend);
    assert_eq!(click_action(false, false, true, false, true, false), ClickAction::Add);
    assert_eq!(click_action(false, true, false, false, false, false), ClickAction::Add, "ctrl adds off macOS");
    assert_eq!(click_action(false, false, false, false, false, false), ClickAction::Select);
    assert!(starts_drag(ClickAction::Select));
}

#[test]
fn only_a_real_move_reorders() {
    assert_eq!(reorder_drop(Some(0), 2, 3), Some((0, 2)));
    assert_eq!(reorder_drop(Some(1), 1, 3), None);
    assert_eq!(reorder_drop(Some(0), 3, 3), None);
    assert_eq!(reorder_drop(None, 1, 3), None);
}

#[test]
fn a_window_loads_its_first_and_last_pages() {
    assert_eq!(page_rows(96, 128), Some((96, 127)));
    assert_eq!(page_rows(5, 5), None);
    assert_eq!(page_rows(0, 0), Some((0, 0)));
    assert!(moves_cursor((1, 0)));
    assert!(!moves_cursor((0, 0)));
    assert!(enter_edits(false));
    assert!(!enter_edits(true));
}
