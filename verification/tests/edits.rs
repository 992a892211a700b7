use dat0_ui::edits::{
    copy_area, delete_columns_step, fill_plan, paste_plan, too_many, DeleteColumns, FillColumn, PasteCell,
    PasteValue, MAX_CELLS, MAX_COPY_CELLS,
};

fn block(rows: &[&[&str]]) -> Vec<Vec<String>> {
    rows.iter().map(|r| r.iter().map(|c| c.to_string()).collect()).collect()
}

#[test]
fn an_edit_touching_too_much_is_refused() {
    assert!(!too_many(MAX_CELLS, MAX_CELLS));
    assert!(too_many(MAX_CELLS + 1, MAX_CELLS));
    assert!(!too_many(MAX_COPY_CELLS, MAX_COPY_CELLS));
    assert_eq!(copy_area(0, 9, 0, 2), 30);
    assert_eq!(copy_area(0, usize::MAX - 1, 0, 1), usize::MAX);
}

#[test]
fn a_paste_writes_what_lands_in_the_grid_and_counts_the_rest() {
    let (cells, skipped) = paste_plan(1, 1, &block(&[&["a", ""], &["c", "d"]]), 3, 2);
    assert_eq!(
        cells,
        vec![
            PasteCell { row: 1, col: 1, value: PasteValue::Text("a".into()) },
            PasteCell { row: 2, col: 1, value: PasteValue::Text("c".into()) },
        ]
    );
    assert_eq!(skipped, 2);
    let (cells, skipped) = paste_plan(0, 0, &block(&[&["", "x"]]), 5, 5);
    assert_eq!(cells[0].value, PasteValue::Null, "an empty cell clears");
    assert_eq!(cells.len(), 2);
    assert_eq!(skipped, 0);
}

#[test]
fn fill_down_fills_each_column_from_its_first_selected_row() {
    let plan = fill_plan(&vec![(3, 2), (1, 0), (4, 2), (2, 0), (5, 9)], 3);
    assert_eq!(
        plan,
        vec![
            FillColumn { col: 0, top: 1, below: vec![2] },
            FillColumn { col: 2, top: 3, below: vec![4] },
        ]
    );
    assert!(fill_plan(&vec![], 3).is_empty());
}

#[test]
fn the_last_column_cannot_be_deleted() {
    assert_eq!(delete_columns_step(0, 3), DeleteColumns::Nothing);
    assert_eq!(delete_columns_step(3, 3), DeleteColumns::WarnLast);
    assert_eq!(delete_columns_step(2, 3), DeleteColumns::Delete);
}
