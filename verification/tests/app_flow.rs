use duckize::app::{file_kind, App, AppMode, Effect, FileKind, KeyCode, KeyInput};
use duckize::file_browser::{DirEntry, FileBrowser};

fn key(code: KeyCode) -> KeyInput {
    KeyInput { code, control_only: false }
}

fn app_in(dir: &str, files: &[(&str, bool)]) -> App {
    let listing = files
        .iter()
        .map(|(n, d)| DirEntry { path: format!("{}/{}", dir, n), name: n.to_string(), is_dir: *d })
        .collect();
    App::new(FileBrowser::new(dir.to_string(), Some(listing)))
}

#[test]
fn starts_in_file_browser_with_welcome() {
    let app = app_in("/d", &[]);
    assert!(app.running);
    assert_eq!(app.mode, AppMode::FileBrowser);
    assert_eq!(app.status_message, "Welcome to Duckize! Navigate files with arrows, Enter to select. Press Tab to switch views.");
    assert_eq!(app.status_bar_text(), "[File Browser] Welcome to Duckize! Navigate files with arrows, Enter to select. Press Tab to switch views.");
}

#[test]
fn quit_keys() {
    let mut app = app_in("/d", &[]);
    assert_eq!(app.handle_key_events(key(KeyCode::Char('q'))), Effect::Quit);
    assert_eq!(app.handle_key_events(key(KeyCode::Esc)), Effect::Quit);
    assert_eq!(app.handle_key_events(key(KeyCode::Char('c'))), Effect::Nothing);
    assert_eq!(app.handle_key_events(KeyInput { code: KeyCode::Char('c'), control_only: true }), Effect::Quit);
    assert!(app.running);
    app.quit();
    assert!(!app.running);
    app.tick();
}

#[test]
fn open_csv_import_and_return() {
    let mut app = app_in("/d", &[("data.CSV", false)]);
    app.handle_key_events(key(KeyCode::Down));
    assert_eq!(app.handle_key_events(key(KeyCode::Enter)), Effect::OpenFile(FileKind::Csv));
    assert_eq!(app.selected_file.as_deref(), Some("/d/data.CSV"));
    app.file_opened(b"a,b\n1,2\n3,4\n5,6\n".to_vec()).unwrap();
    assert_eq!(app.mode, AppMode::DataPreview);
    assert_eq!(app.status_message, "Use arrows to navigate, Space to select range, Enter to import");
    assert_eq!(app.data_preview.total_rows, 3);

    app.handle_key_events(key(KeyCode::Down));
    app.handle_key_events(key(KeyCode::Char(' ')));
    app.handle_key_events(key(KeyCode::Down));
    app.handle_key_events(key(KeyCode::Right));
    assert_eq!((app.data_preview.selection.start_row, app.data_preview.selection.end_row), (1, 2));
    assert_eq!((app.data_preview.selection.start_col, app.data_preview.selection.end_col), (0, 1));
    app.handle_key_events(key(KeyCode::Char(' ')));

    assert_eq!(app.handle_key_events(key(KeyCode::Enter)), Effect::Nothing);
    assert_eq!(app.mode, AppMode::TableImport);
    assert_eq!(app.status_message, "Enter table name and press Enter to import");
    app.handle_key_events(key(KeyCode::Char('t')));
    app.handle_key_events(key(KeyCode::Char('x')));
    app.handle_key_events(key(KeyCode::Backspace));
    app.handle_key_events(key(KeyCode::Char('1')));
    assert_eq!(app.table_name, "t1");
    assert_eq!(app.table_name_prompt(), "Table name: t1");
    assert_eq!(app.handle_key_events(key(KeyCode::Enter)), Effect::Import(FileKind::Csv));
    assert_eq!(app.mode, AppMode::FileBrowser);
    let q = app.import_query().unwrap();
    assert!(q.starts_with("CREATE TABLE \"t1\" AS"));
    assert!(q.contains("read_csv('/d/data.CSV'"));
    assert!(q.contains("skip = 2\n"));
    assert!(q.ends_with("LIMIT 2"));
    assert!(app.import_finished(Ok(())));
    assert_eq!(app.status_message, "Successfully imported table: t1. Press Tab to view tables.");
    assert!(!app.import_finished(Err("bad".to_string())));
    assert_eq!(app.status_message, "Import failed: bad");
}

#[test]
fn empty_table_name_is_not_imported() {
    let mut app = app_in("/d", &[("a.csv", false)]);
    app.handle_key_events(key(KeyCode::Down));
    app.handle_key_events(key(KeyCode::Enter));
    app.file_opened(b"x\n1\n".to_vec()).unwrap();
    app.handle_key_events(key(KeyCode::Enter));
    assert_eq!(app.handle_key_events(key(KeyCode::Enter)), Effect::Nothing);
    assert_eq!(app.mode, AppMode::TableImport);
    app.handle_key_events(key(KeyCode::Esc));
    assert_eq!(app.mode, AppMode::DataPreview);
    assert_eq!(app.status_message, "Import cancelled");
    app.handle_key_events(key(KeyCode::Esc));
    assert_eq!(app.mode, AppMode::FileBrowser);
    assert_eq!(app.status_message, "Back to file browser");
}

#[test]
fn unsupported_file_opens_empty_preview() {
    let mut app = app_in("/d", &[("a.csv", false)]);
    app.handle_key_events(key(KeyCode::Down));
    app.handle_key_events(key(KeyCode::Enter));
    app.selected_file = Some("/d/readme.md".to_string());
    app.load_file_preview(vec![]).unwrap();
    assert_eq!(app.status_message, "Unsupported file type");
    assert_eq!(file_kind("/d/readme.md"), FileKind::Unsupported);
    assert_eq!(file_kind("/d/book.XLS"), FileKind::Excel);
    assert_eq!(file_kind("/d/book.xlsx"), FileKind::Excel);
    assert_eq!(file_kind("/d/.csv"), FileKind::Unsupported);
    assert!(app.import_query().is_none());
}

#[test]
fn loading_reports_size() {
    let mut app = app_in("/d", &[("a.csv", false)]);
    app.handle_key_events(key(KeyCode::Down));
    app.handle_key_events(key(KeyCode::Enter));
    app.load_file_preview(b"a,b,c\n1,2,3\n".to_vec()).unwrap();
    assert_eq!(app.status_message, "Loaded CSV: 1 rows × 3 columns");
}

#[test]
fn bad_workbook_is_an_error() {
    let mut app = app_in("/d", &[("a.xlsx", false)]);
    app.handle_key_events(key(KeyCode::Down));
    assert_eq!(app.handle_key_events(key(KeyCode::Enter)), Effect::OpenFile(FileKind::Excel));
    assert!(app.file_opened(b"junk".to_vec()).is_err());
    assert_eq!(app.mode, AppMode::FileBrowser);
}

#[test]
fn entering_a_directory_asks_for_a_listing() {
    let mut app = app_in("/d", &[("sub", true)]);
    app.handle_key_events(key(KeyCode::Down));
    assert_eq!(app.handle_key_events(key(KeyCode::Enter)), Effect::ListDirectory);
    assert_eq!(app.file_browser.current_dir, "/d/sub");
    app.handle_key_events(key(KeyCode::Up));
    assert_eq!(app.file_browser.state.selected(), Some(0));
}

#[test]
fn table_viewer_flow() {
    let mut app = app_in("/d", &[]);
    assert_eq!(app.handle_key_events(key(KeyCode::Tab)), Effect::ListTables);
    assert_eq!(app.mode, AppMode::TableViewer);
    app.tables_listed(Ok(vec![]));
    assert_eq!(app.status_message, "Table Viewer: No tables loaded. Import CSV/Excel files first.");
    app.tables_listed(Ok(vec!["t1".to_string(), "t2".to_string()]));
    assert_eq!(app.status_message, "Table Viewer: Use arrows to navigate, Enter to view table details");
    app.handle_key_events(key(KeyCode::Down));
    assert_eq!(app.handle_key_events(key(KeyCode::Enter)), Effect::DescribeTable);
    assert_eq!(app.table_viewer.selected_table.as_deref(), Some("t2"));
    assert!(app.table_viewer.schema_fetched(Ok(vec![("c".to_string(), "VARCHAR".to_string())])));
    app.table_viewer.preview_fetched(Ok(vec![vec!["v".to_string()]]));
    app.table_selected();
    assert_eq!(app.status_message, "Viewing table: t2. Use PageUp/PageDown to scroll data.");
    app.handle_key_events(key(KeyCode::PageDown));
    app.handle_key_events(key(KeyCode::PageUp));
    assert_eq!(app.table_viewer.data_scroll_offset, 0);
    app.tables_listed(Err("db closed".to_string()));
    assert_eq!(app.status_message, "Error loading tables: db closed");
    assert!(app.table_viewer.tables.is_empty());
    assert_eq!(app.table_viewer.table_list_state.selected(), None);
    app.handle_key_events(key(KeyCode::Tab));
    assert_eq!(app.mode, AppMode::FileBrowser);
    assert_eq!(app.status_message, "Back to file browser. Press Tab to view tables.");
}

#[test]
fn enter_without_tables_keeps_status() {
    let mut app = app_in("/d", &[]);
    app.handle_key_events(key(KeyCode::Tab));
    app.tables_listed(Ok(vec![]));
    assert_eq!(app.handle_key_events(key(KeyCode::Enter)), Effect::Nothing);
    assert_eq!(app.status_message, "Table Viewer: No tables loaded. Import CSV/Excel files first.");
}

#[test]
fn query_mode_ignores_keys() {
    let mut app = app_in("/d", &[]);
    app.mode = AppMode::QueryMode;
    assert_eq!(app.handle_key_events(key(KeyCode::Esc)), Effect::Nothing);
    assert_eq!(app.mode, AppMode::QueryMode);
    assert_eq!(app.status_bar_text(), format!("[Query Mode] {}", app.status_message));
}
