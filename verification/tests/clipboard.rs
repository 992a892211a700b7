use dat0_ui::clipboard::{cells_of, copy_cells, paste_cells, set_text, text, Board};
use dat0_ui::tsv::{tsv_parse, tsv_serialize};

fn grid(rows: &[&[&str]]) -> Vec<Vec<String>> {
    rows.iter()
        .map(|r| r.iter().map(|c| c.to_string()).collect())
        .collect()
}

#[test]
fn a_copy_can_be_pasted_back_with_or_without_a_system_clipboard() {
    let mut board = Board::open();
    assert!(set_text(&mut board, "a\tb"));
    assert_eq!(text(&mut board).as_deref(), Some("a\tb"));
    assert_eq!(
        paste_cells(&mut board),
        Some(vec![vec!["a".to_string(), "b".to_string()]])
    );
}

#[test]
fn cells_round_trip_through_tsv() {
    let g = grid(&[&["1", "alpha"], &["2", "bravo"]]);
    let tsv = tsv_serialize(&g);
    assert_eq!(tsv, "1\talpha\r\n2\tbravo");
    assert_eq!(tsv_parse(&tsv), g);
}

#[test]
fn without_a_system_clipboard_the_spare_slot_holds_the_copy() {
    let mut board = Board::in_process();
    assert!(!board.has_system());
    assert_eq!(text(&mut board), None);
    assert!(set_text(&mut board, "first"));
    assert!(set_text(&mut board, "second"));
    assert_eq!(text(&mut board).as_deref(), Some("second"));
}

#[test]
fn an_empty_copy_pastes_no_cells() {
    let mut board = Board::in_process();
    assert_eq!(paste_cells(&mut board), None);
    assert!(set_text(&mut board, ""));
    assert_eq!(paste_cells(&mut board), None);
}

#[test]
fn copied_cells_paste_back_as_the_same_block() {
    let mut board = Board::in_process();
    let g = grid(&[&["x", "", "z"], &["", "w", ""]]);
    assert!(copy_cells(&mut board, &g));
    assert_eq!(text(&mut board).as_deref(), Some("x\t\tz\r\n\tw\t"));
    assert_eq!(paste_cells(&mut board), Some(g));
}

#[test]
fn a_spreadsheet_line_end_at_the_end_starts_no_row() {
    assert_eq!(tsv_parse("a\tb\r\nc\td\r\n"), grid(&[&["a", "b"], &["c", "d"]]));
    assert_eq!(tsv_parse("a\nb"), grid(&[&["a"], &["b"]]));
    assert_eq!(tsv_parse(""), grid(&[&[""]]));
    assert_eq!(tsv_parse("\n"), grid(&[&[""]]));
}

#[test]
fn read_text_pastes_as_its_cells_and_no_text_as_none() {
    assert_eq!(cells_of(None), None);
    assert_eq!(cells_of(Some(String::new())), None);
    assert_eq!(
        cells_of(Some("a\tb\r\nc\td".to_string())),
        Some(grid(&[&["a", "b"], &["c", "d"]]))
    );
    assert_eq!(cells_of(Some("\t".to_string())), Some(grid(&[&["", ""]])));
}

#[test]
fn a_lone_empty_cell_copied_pastes_as_nothing() {
    let mut board = Board::in_process();
    assert!(copy_cells(&mut board, &grid(&[&[""]])));
    assert_eq!(text(&mut board).as_deref(), Some(""));
    assert_eq!(paste_cells(&mut board), None);
}
