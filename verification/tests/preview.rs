use duckize::data_preview::{CellHighlight, DataPreview, DataRange, LoadError};
use duckize::selection::ListSelection;

fn preview_with(rows: usize, cols: usize) -> DataPreview {
    let mut p = DataPreview::new();
    let data: Vec<u8> = {
        let mut s = String::new();
        let header: Vec<String> = (0..cols).map(|c| format!("h{}", c)).collect();
        s.push_str(&header.join(","));
        s.push('\n');
        for r in 0..rows {
            let line: Vec<String> = (0..cols).map(|c| format!("r{}c{}", r, c)).collect();
            s.push_str(&line.join(","));
            s.push('\n');
        }
        s.into_bytes()
    };
    p.load_csv(&data, 100).unwrap();
    p
}

#[test]
fn new_preview_is_empty() {
    let p = DataPreview::new();
    assert!(p.headers.is_empty());
    assert!(p.rows.is_empty());
    assert_eq!(p.total_rows, 0);
    assert_eq!(p.total_cols, 0);
    assert_eq!(p.cursor_row, 0);
    assert_eq!(p.cursor_col, 0);
    assert!(!p.selecting);
    assert!(p.selection_start.is_none());
    assert!(p.table_state.selected().is_none());
}

#[test]
fn load_csv_reads_header_and_rows() {
    let mut p = DataPreview::new();
    let data = b"name,age\nann,31\nbob,42\n";
    p.load_csv(data, 100).unwrap();
    assert_eq!(p.headers, vec!["name".to_string(), "age".to_string()]);
    assert_eq!(p.rows, vec![vec!["ann".to_string(), "31".to_string()], vec!["bob".to_string(), "42".to_string()]]);
    assert_eq!(p.total_rows, 2);
    assert_eq!(p.total_cols, 2);
    assert_eq!(p.selection.end_row, 1);
    assert_eq!(p.selection.end_col, 1);
    assert_eq!(p.table_state.selected(), Some(0));
}

#[test]
fn load_csv_stops_at_the_preview_limit() {
    let mut p = DataPreview::new();
    let data = b"a\n1\n2\n3\n4\n5\n";
    p.load_csv(data, 3).unwrap();
    assert_eq!(p.rows.len(), 3);
    assert_eq!(p.total_rows, 3);
    assert_eq!(p.rows[2], vec!["3".to_string()]);
}

#[test]
fn load_csv_of_header_only_file_selects_nothing() {
    let mut p = DataPreview::new();
    p.load_csv(b"a,b,c\n", 100).unwrap();
    assert_eq!(p.total_rows, 0);
    assert_eq!(p.total_cols, 3);
    assert_eq!(p.selection.end_row, 0);
    assert_eq!(p.selection.end_col, 2);
    assert!(p.table_state.selected().is_none());
}

#[test]
fn load_csv_reports_a_ragged_record() {
    let mut p = DataPreview::new();
    let r = p.load_csv(b"a,b\n1,2\n3\n", 100);
    assert!(matches!(r, Err(LoadError::Csv(_))));
    assert_eq!(p.headers, vec!["a".to_string(), "b".to_string()]);
    assert_eq!(p.rows.len(), 1);
    assert_eq!(p.total_cols, 2);
    assert_eq!(p.total_rows, 0);
}

#[test]
fn load_csv_ignores_a_ragged_record_past_the_limit() {
    let mut p = DataPreview::new();
    let r = p.load_csv(b"a,b\n1,2\n3\n", 1);
    assert!(r.is_ok());
    assert_eq!(p.rows, vec![vec!["1".to_string(), "2".to_string()]]);
    assert_eq!(p.total_rows, 1);
}

#[test]
fn load_csv_rejects_a_header_row_that_is_not_utf8() {
    let mut p = DataPreview::new();
    let r = p.load_csv(b"a,\xff\n1,2\n", 100);
    assert!(matches!(r, Err(LoadError::Csv(_))));
    assert!(p.headers.is_empty());
    assert_eq!(p.total_cols, 0);
}

#[test]
fn load_csv_of_empty_text_has_no_columns() {
    let mut p = DataPreview::new();
    p.load_csv(b"", 100).unwrap();
    assert!(p.headers.is_empty());
    assert!(p.rows.is_empty());
    assert_eq!(p.total_cols, 0);
    assert_eq!(p.total_rows, 0);
}

#[test]
fn load_excel_rejects_bytes_that_are_no_workbook() {
    let mut p = DataPreview::new();
    let r = p.load_excel(b"not a workbook".to_vec(), None, 100);
    assert!(matches!(r, Err(LoadError::Excel(_))));
    assert!(p.headers.is_empty());
}

#[test]
fn load_sheet_splits_header_and_rows() {
    let mut range: calamine::Range<calamine::Data> = calamine::Range::new((0, 0), (3, 1));
    range.set_value((0, 0), calamine::Data::String("id".to_string()));
    range.set_value((0, 1), calamine::Data::String("city".to_string()));
    range.set_value((1, 0), calamine::Data::Int(1));
    range.set_value((1, 1), calamine::Data::String("Oslo".to_string()));
    range.set_value((2, 0), calamine::Data::Int(2));
    range.set_value((3, 0), calamine::Data::Bool(true));
    let mut p = DataPreview::new();
    p.load_sheet(&range, 2);
    assert_eq!(p.headers, vec!["id".to_string(), "city".to_string()]);
    assert_eq!(p.rows, vec![vec!["1".to_string(), "Oslo".to_string()], vec!["2".to_string(), "".to_string()]]);
    assert_eq!(p.total_rows, 4);
    assert_eq!(p.total_cols, 2);
    assert_eq!(p.selection.end_row, 3);
    assert_eq!(p.selection.end_col, 1);
    assert_eq!(p.table_state.selected(), Some(0));
}

#[test]
fn load_sheet_of_empty_range_clears_the_preview() {
    let range: calamine::Range<calamine::Data> = calamine::Range::empty();
    let mut p = preview_with(2, 2);
    p.load_sheet(&range, 100);
    assert!(p.headers.is_empty());
    assert!(p.rows.is_empty());
    assert_eq!(p.total_rows, 0);
    assert_eq!(p.total_cols, 0);
}

#[test]
fn cursor_moves_within_the_data() {
    let mut p = preview_with(3, 2);
    p.navigate_up();
    assert_eq!(p.cursor_row, 0);
    p.navigate_down();
    p.navigate_down();
    p.navigate_down();
    assert_eq!(p.cursor_row, 2);
    assert_eq!(p.table_state.selected(), Some(2));
    p.navigate_up();
    assert_eq!(p.cursor_row, 1);
    assert_eq!(p.table_state.selected(), Some(1));
    p.navigate_left();
    assert_eq!(p.cursor_col, 0);
    p.navigate_right();
    p.navigate_right();
    assert_eq!(p.cursor_col, 1);
    p.navigate_left();
    assert_eq!(p.cursor_col, 0);
}

#[test]
fn selection_spans_start_and_cursor() {
    let mut p = preview_with(5, 4);
    p.navigate_down();
    p.navigate_down();
    p.navigate_right();
    p.navigate_right();
    p.navigate_right();
    p.toggle_selection();
    assert!(p.selecting);
    assert_eq!(p.selection_start, Some((2, 3)));
    p.navigate_up();
    p.update_selection();
    p.navigate_left();
    p.update_selection();
    assert_eq!((p.selection.start_row, p.selection.end_row), (1, 2));
    assert_eq!((p.selection.start_col, p.selection.end_col), (2, 3));
    p.toggle_selection();
    assert!(!p.selecting);
    assert!(p.selection_start.is_none());
    assert_eq!((p.selection.start_row, p.selection.end_row), (1, 2));
    assert_eq!((p.selection.start_col, p.selection.end_col), (2, 3));
}

#[test]
fn toggling_twice_selects_the_cursor_cell() {
    let mut p = preview_with(3, 3);
    p.navigate_down();
    p.navigate_right();
    p.toggle_selection();
    p.toggle_selection();
    assert_eq!((p.selection.start_row, p.selection.end_row, p.selection.start_col, p.selection.end_col), (1, 1, 1, 1));
}

#[test]
fn update_without_selection_changes_nothing() {
    let mut p = preview_with(3, 3);
    p.navigate_down();
    p.update_selection();
    assert_eq!((p.selection.start_row, p.selection.end_row), (0, 2));
}

#[test]
fn cell_highlights() {
    let mut p = preview_with(3, 3);
    p.selection = DataRange { start_row: 0, end_row: 1, start_col: 1, end_col: 2 };
    assert_eq!(p.cell_highlight(0, 0), CellHighlight::Cursor);
    assert_eq!(p.cell_highlight(0, 1), CellHighlight::Selected);
    assert_eq!(p.cell_highlight(2, 2), CellHighlight::Plain);
    p.cursor_col = 1;
    assert_eq!(p.cell_highlight(0, 1), CellHighlight::SelectedCursor);
    assert!(p.header_selected(2));
    assert!(!p.header_selected(0));
}

#[test]
fn title_counts_from_one() {
    let mut p = DataPreview::new();
    p.selection = DataRange { start_row: 0, end_row: 9, start_col: 2, end_col: 12 };
    assert_eq!(p.title(), "Data Preview - Selection: (1,3) to (10,13)");
}

#[test]
fn list_selection_select() {
    let mut s = ListSelection::new();
    assert_eq!(s.selected(), None);
    s.select(Some(4));
    assert_eq!(s.selected(), Some(4));
}
