use dat0_ui::cell_editor::{CellEdit, EditKey, EditOutcome};

#[test]
fn a_commit_carries_the_cursor_step_with_it() {
    let c = EditOutcome::Commit { value: "x".into(), move_by: (1, 0) };
    assert_ne!(c, EditOutcome::Cancel);
    let mut e = CellEdit::new("x".into());
    assert_eq!(e.key(EditKey::Enter, true), Some(EditOutcome::Commit { value: "x".into(), move_by: (1, 0) }));
    let mut e = CellEdit::new("y".into());
    assert_eq!(
        e.key(EditKey::Tab { shift: true }, true),
        Some(EditOutcome::Commit { value: "y".into(), move_by: (0, -1) })
    );
}

#[test]
fn a_value_the_column_cannot_hold_stays_in_the_editor() {
    let mut e = CellEdit::new("abc".into());
    assert_eq!(e.key(EditKey::Tab { shift: false }, false), None);
    assert!(e.invalid && !e.finished);
    e.input("12".into());
    assert!(!e.invalid);
    assert_eq!(e.blur(true), Some(EditOutcome::Commit { value: "12".into(), move_by: (0, 0) }));
    assert_eq!(e.blur(true), None, "a finished edit does not commit twice");
}

#[test]
fn escape_cancels_and_the_blur_after_it_does_nothing() {
    let mut e = CellEdit::new("v".into());
    assert_eq!(e.key(EditKey::Escape, true), Some(EditOutcome::Cancel));
    assert_eq!(e.blur(true), None);
    assert_eq!(e.key(EditKey::Other, true), None);
}
