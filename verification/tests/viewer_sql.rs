use duckize::data_preview::DataRange;
use duckize::sql::{counts_fit, import_csv_query, import_excel_query, table_preview_query, table_schema_query};
use duckize::table_viewer::TableViewer;
use duckize::text::{chars_of, double_quotes, push_decimal, str_equal, str_less};

fn names(v: &[&str]) -> Vec<String> {
    v.iter().map(|s| s.to_string()).collect()
}

#[test]
fn refresh_highlights_first_table_once() {
    let mut v = TableViewer::new();
    v.refresh_tables(Ok(names(&["a", "b", "c"]))).unwrap();
    assert_eq!(v.table_list_state.selected(), Some(0));
    v.navigate_down();
    v.navigate_down();
    v.navigate_down();
    assert_eq!(v.table_list_state.selected(), Some(2));
    v.refresh_tables(Ok(names(&["a", "b", "c", "d"]))).unwrap();
    assert_eq!(v.table_list_state.selected(), Some(2));
    v.navigate_up();
    assert_eq!(v.table_list_state.selected(), Some(1));
    assert_eq!(v.refresh_tables(Err("boom".to_string())), Err("boom".to_string()));
    assert_eq!(v.tables.len(), 4);
}

#[test]
fn refresh_with_no_tables_highlights_nothing() {
    let mut v = TableViewer::new();
    v.refresh_tables(Ok(vec![])).unwrap();
    assert_eq!(v.table_list_state.selected(), None);
}

#[test]
fn select_and_fetch_a_table() {
    let mut v = TableViewer::new();
    assert_eq!(v.select_table(), None);
    v.refresh_tables(Ok(names(&["sales", "stock"]))).unwrap();
    v.navigate_down();
    assert_eq!(v.select_table(), Some("stock".to_string()));
    assert_eq!(v.selected_table.as_deref(), Some("stock"));
    assert!(v.schema_fetched(Ok(vec![("id".to_string(), "INTEGER".to_string())])));
    v.data_scroll_offset = 5;
    v.preview_fetched(Ok(vec![vec!["1".to_string()]; 30]));
    assert_eq!(v.data_preview.len(), 30);
    assert_eq!(v.data_scroll_offset, 0);
    assert!(!v.schema_fetched(Err("gone".to_string())));
    assert!(v.schema.is_empty());
    assert!(v.data_preview.is_empty());
    v.preview_fetched(Err("gone".to_string()));
    assert!(v.data_preview.is_empty());
}

#[test]
fn scrolling_keeps_ten_rows_below() {
    let mut v = TableViewer::new();
    v.preview_fetched(Ok(vec![vec!["x".to_string()]; 12]));
    v.scroll_data_up();
    assert_eq!(v.data_scroll_offset, 0);
    v.scroll_data_down();
    v.scroll_data_down();
    v.scroll_data_down();
    assert_eq!(v.data_scroll_offset, 2);
    v.scroll_data_up();
    assert_eq!(v.data_scroll_offset, 1);
}

#[test]
fn visible_rows_and_titles() {
    let mut v = TableViewer::new();
    v.preview_fetched(Ok(vec![vec!["x".to_string()]; 20]));
    v.data_scroll_offset = 4;
    assert_eq!(v.visible_rows(13), (4, 14));
    assert_eq!(v.visible_rows(2), (4, 4));
    assert_eq!(v.visible_rows(100), (4, 20));
    assert_eq!(v.data_title(10), "Data Preview (showing 10 of 20 rows)");
    assert_eq!(TableViewer::table_label("sales"), "📊 sales");
    assert_eq!(TableViewer::schema_title("sales"), "Schema: sales");
}

#[test]
fn csv_import_statement() {
    let range = DataRange { start_row: 2, end_row: 5, start_col: 0, end_col: 3 };
    let q = import_csv_query("/tmp/a.csv", "t1", &range, true);
    assert_eq!(
        q,
        "CREATE TABLE \"t1\" AS \n             SELECT * FROM read_csv('/tmp/a.csv', \n                header = true, \n                skip = 3\n             )\n             LIMIT 4"
    );
    let q = import_csv_query("/tmp/a.csv", "t1", &range, false);
    assert!(q.contains("header = false, \n                skip = 2\n"));
}

#[test]
fn excel_import_statement() {
    let range = DataRange { start_row: 0, end_row: 0, start_col: 0, end_col: 0 };
    let q = import_excel_query("/x.xlsx", "t", "Sheet1", &range, true);
    assert_eq!(
        q,
        "CREATE TABLE \"t\" AS \n             SELECT * FROM st_read('/x.xlsx', \n                layer = 'Sheet1',\n                open_options = ['HEADERS=FORCE']\n             )\n             LIMIT 1 OFFSET 1"
    );
    let q = import_excel_query("/x.xlsx", "t", "S", &range, false);
    assert!(q.contains("HEADERS=DISABLE"));
    assert!(q.ends_with("LIMIT 1 OFFSET 0"));
}

#[test]
fn schema_and_preview_queries_escape_quotes() {
    assert_eq!(
        table_schema_query("o'brien"),
        "SELECT column_name, data_type \n             FROM information_schema.columns \n             WHERE table_schema = 'main' AND table_name = 'o''brien' \n             ORDER BY ordinal_position"
    );
    assert_eq!(table_preview_query("a\"b"), "SELECT * FROM \"a\"\"b\" LIMIT 100");
}

#[test]
fn text_helpers() {
    assert_eq!(double_quotes("it's 'x'", '\''), "it''s ''x''");
    assert_eq!(double_quotes("", '"'), "");
    let mut s = "n=".to_string();
    push_decimal(&mut s, 0);
    assert_eq!(s, "n=0");
    let mut s = String::new();
    push_decimal(&mut s, 18446744073709551615usize);
    assert_eq!(s, usize::MAX.to_string());
    assert!(str_less("abc", "abd"));
    assert!(str_less("ab", "abc"));
    assert!(!str_less("abc", "abc"));
    assert!(str_less("Z", "a"));
    assert!(str_less("a", "é"));
    assert!(str_equal("héllo", "héllo"));
    assert!(!str_equal("a", "ab"));
    assert_eq!(chars_of("añb"), vec!['a', 'ñ', 'b']);
}

#[test]
fn counts_fit_rejects_a_selection_that_ends_before_it_starts() {
    let ok = DataRange { start_row: 2, end_row: 5, start_col: 0, end_col: 1 };
    let backwards = DataRange { start_row: 5, end_row: 2, start_col: 0, end_col: 1 };
    let whole = DataRange { start_row: 0, end_row: usize::MAX, start_col: 0, end_col: 0 };
    let last = DataRange { start_row: usize::MAX, end_row: usize::MAX, start_col: 0, end_col: 0 };
    assert!(counts_fit(&ok, true));
    assert!(!counts_fit(&backwards, false));
    assert!(!counts_fit(&whole, false));
    assert!(!counts_fit(&last, true));
    assert!(counts_fit(&last, false));
}
