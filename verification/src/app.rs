use vstd::prelude::*;
use vstd::string::*;
use crate::data_preview::{DataPreview, LoadError, DataRange};
use crate::selection::ListSelection;
use crate::sql::{import_counts_fit, counts_fit, csv_import_sql, excel_import_sql, import_csv_query, import_excel_query};
use crate::text::{decimal, push_decimal};
use crate::file_browser::FileBrowser;
use crate::table_viewer::TableViewer;
use crate::paths::{lowercase_extension, lowercase_extension_of};
use crate::text::{str_equal, push_char, pop_char, string_views, text_rows};
use crate::sources::{csv_contents, xlsx_contents};

verus! {

/// The view the application shows.
#[derive(Clone, Copy, Debug, PartialEq, Eq, Structural)]
pub enum AppMode {
    FileBrowser,
    DataPreview,
    TableImport,
    QueryMode,
    TableViewer,
}

/// The key of a key press.
#[derive(Clone, Copy, Debug, PartialEq, Eq, Structural)]
pub enum KeyCode {
    Esc,
    Enter,
    Tab,
    Backspace,
    Up,
    Down,
    Left,
    Right,
    PageUp,
    PageDown,
    Char(char),
    /// Any key the application does not react to.
    Other,
}

/// A key press: the key, and whether Control was the only modifier held.
#[derive(Clone, Copy, Debug)]
pub struct KeyInput {
    pub code: KeyCode,
    pub control_only: bool,
}

/// The kind of a data file, by its extension.
#[derive(Clone, Copy, Debug, PartialEq, Eq, Structural)]
pub enum FileKind {
    Csv,
    Excel,
    Unsupported,
}

/// The outside work a key press asks for. The caller performs it and hands
/// the outcome to the method that each variant names.
#[derive(Clone, Copy, Debug, PartialEq, Eq, Structural)]
pub enum Effect {
    /// Nothing to do.
    Nothing,
    /// Stop the application (`quit`).
    Quit,
    /// List the database's tables (`tables_listed`).
    ListTables,
    /// List the browser's current directory (`FileBrowser::refresh_entries`).
    ListDirectory,
    /// Read the selected file, of the given kind (`file_opened`); a file of
    /// no known kind need not be read.
    OpenFile(FileKind),
    /// Run the statement of `import_query` (`import_finished`).
    Import(FileKind),
    /// Fetch the columns of the chosen table (`TableViewer::schema_fetched`,
    /// then `TableViewer::preview_fetched` and `table_selected`).
    DescribeTable,
}

/// The kind of the file at `path`: CSV for the extension `csv`, Excel for
/// `xlsx` and `xls`, in any case.
pub open spec fn file_kind_of(path: Seq<char>) -> FileKind {
    match lowercase_extension(path) {
        Some(e) => if e == "csv"@ {
            FileKind::Csv
        } else if e == "xlsx"@ || e == "xls"@ {
            FileKind::Excel
        } else {
            FileKind::Unsupported
        },
        None => FileKind::Unsupported,
    }
}

/// The kind of the file at `path`.
pub fn file_kind(path: &str) -> (k: FileKind)
    ensures
        k == file_kind_of(path@),
{
    match lowercase_extension_of(path) {
        Some(e) => {
            if str_equal(e.as_str(), "csv") {
                FileKind::Csv
            } else if str_equal(e.as_str(), "xlsx") || str_equal(e.as_str(), "xls") {
                FileKind::Excel
            } else {
                FileKind::Unsupported
            }
        },
        None => FileKind::Unsupported,
    }
}

/// The application: which view is shown, the state of each view, the file
/// being previewed, the name typed for an import and the status line.
pub struct App {
    pub running: bool,
    pub mode: AppMode,
    pub file_browser: FileBrowser,
    pub data_preview: DataPreview,
    pub table_viewer: TableViewer,
    pub selected_file: Option<String>,
    pub table_name: String,
    pub status_message: String,
}

/// What an `App` holds, with its texts as plain values.
pub struct AppView {
    pub running: bool,
    pub mode: AppMode,
    pub file_browser: FileBrowser,
    pub data_preview: DataPreview,
    pub table_viewer: TableViewer,
    pub selected_file: Option<String>,
    pub table_name: Seq<char>,
    pub status_message: Seq<char>,
}

impl View for App {
    type V = AppView;

    open spec fn view(&self) -> AppView {
        AppView {
            running: self.running,
            mode: self.mode,
            file_browser: self.file_browser,
            data_preview: self.data_preview,
            table_viewer: self.table_viewer,
            selected_file: self.selected_file,
            table_name: self.table_name@,
            status_message: self.status_message@,
        }
    }
}

/// The status line when the application starts.
pub open spec fn welcome_text() -> Seq<char> {
    "Welcome to Duckize! Navigate files with arrows, Enter to select. Press Tab to switch views."@
}

/// The status line after going back to the file browser from the table
/// viewer.
pub open spec fn back_to_files_text() -> Seq<char> {
    "Back to file browser. Press Tab to view tables."@
}

/// The status line while a table is shown.
pub open spec fn viewing_table_text(name: Seq<char>) -> Seq<char> {
    "Viewing table: "@ + name + ". Use PageUp/PageDown to scroll data."@
}

/// The status line after a file was loaded into the preview.
pub open spec fn loaded_text(kind: Seq<char>, rows: usize, cols: usize) -> Seq<char> {
    "Loaded "@ + kind + ": "@ + decimal(rows as nat) + " rows × "@ + decimal(cols as nat) + " columns"@
}

/// The name of a view, as the status bar shows it.
pub open spec fn mode_label(mode: AppMode) -> Seq<char> {
    match mode {
        AppMode::FileBrowser => "File Browser"@,
        AppMode::DataPreview => "Data Preview"@,
        AppMode::TableImport => "Table Import"@,
        AppMode::QueryMode => "Query Mode"@,
        AppMode::TableViewer => "Table Viewer"@,
    }
}

/// The worksheet that an Excel import reads.
pub open spec fn import_sheet() -> Seq<char> {
    "Sheet1"@
}

impl AppView {
    /// The state and the outside work after a key press in the file browser.
    pub open spec fn file_browser_key(self, key: KeyInput) -> (AppView, Effect) {
        match key.code {
            KeyCode::Esc => (self, Effect::Quit),
            KeyCode::Char(c) => if c == 'q' || ((c == 'c' || c == 'C') && key.control_only) {
                (self, Effect::Quit)
            } else {
                (self, Effect::Nothing)
            },
            KeyCode::Up => (
                AppView { file_browser: self.file_browser.after_navigate_up(), ..self },
                Effect::Nothing,
            ),
            KeyCode::Down => (
                AppView { file_browser: self.file_browser.after_navigate_down(), ..self },
                Effect::Nothing,
            ),
            KeyCode::Tab => (AppView { mode: AppMode::TableViewer, ..self }, Effect::ListTables),
            KeyCode::Enter => match self.file_browser.selected_file_entry() {
                Some(e) => (
                    AppView { selected_file: Some(e.path), ..self },
                    Effect::OpenFile(file_kind_of(e.path@)),
                ),
                None => if self.file_browser.directory_highlighted() {
                    (
                        AppView { file_browser: self.file_browser.after_enter_directory(), ..self },
                        Effect::ListDirectory,
                    )
                } else {
                    (self, Effect::Nothing)
                },
            },
            _ => (self, Effect::Nothing),
        }
    }

    /// The state after a key press in the data preview.
    pub open spec fn data_preview_key(self, key: KeyInput) -> AppView {
        match key.code {
            KeyCode::Esc => AppView {
                mode: AppMode::FileBrowser,
                status_message: "Back to file browser"@,
                ..self
            },
            KeyCode::Up => AppView {
                data_preview: self.data_preview.after_navigate_up().after_update_selection(),
                ..self
            },
            KeyCode::Down => AppView {
                data_preview: self.data_preview.after_navigate_down().after_update_selection(),
                ..self
            },
            KeyCode::Left => AppView {
                data_preview: self.data_preview.after_navigate_left().after_update_selection(),
                ..self
            },
            KeyCode::Right => AppView {
                data_preview: self.data_preview.after_navigate_right().after_update_selection(),
                ..self
            },
            KeyCode::Char(c) => if c == ' ' {
                AppView { data_preview: self.data_preview.after_toggle_selection(), ..self }
            } else {
                self
            },
            KeyCode::Enter => AppView {
                mode: AppMode::TableImport,
                table_name: Seq::empty(),
                status_message: "Enter table name and press Enter to import"@,
                ..self
            },
            _ => self,
        }
    }

    /// The kind of the import that confirming the table name starts: none
    /// without a selected file or for a file of no known kind.
    pub open spec fn import_kind(self) -> Option<FileKind> {
        match self.selected_file {
            Some(p) => if file_kind_of(p@) == FileKind::Unsupported {
                None
            } else {
                Some(file_kind_of(p@))
            },
            None => None,
        }
    }

    /// The state and the outside work after a key press while the table name
    /// for an import is typed.
    pub open spec fn table_import_key(self, key: KeyInput) -> (AppView, Effect) {
        match key.code {
            KeyCode::Esc => (
                AppView {
                    mode: AppMode::DataPreview,
                    status_message: "Import cancelled"@,
                    ..self
                },
                Effect::Nothing,
            ),
            KeyCode::Enter => if self.table_name.len() > 0 {
                (
                    AppView { mode: AppMode::FileBrowser, ..self },
                    match self.import_kind() {
                        Some(k) => Effect::Import(k),
                        None => Effect::Nothing,
                    },
                )
            } else {
                (self, Effect::Nothing)
            },
            KeyCode::Char(c) => (
                AppView { table_name: self.table_name.push(c), ..self },
                Effect::Nothing,
            ),
            KeyCode::Backspace => (
                AppView {
                    table_name: if self.table_name.len() > 0 {
                        self.table_name.drop_last()
                    } else {
                        self.table_name
                    },
                    ..self
                },
                Effect::Nothing,
            ),
            _ => (self, Effect::Nothing),
        }
    }

    /// The state and the outside work after a key press in the table viewer.
    pub open spec fn table_viewer_key(self, key: KeyInput) -> (AppView, Effect) {
        match key.code {
            KeyCode::Esc | KeyCode::Tab => (
                AppView {
                    mode: AppMode::FileBrowser,
                    status_message: back_to_files_text(),
                    ..self
                },
                Effect::Nothing,
            ),
            KeyCode::Up => (
                AppView { table_viewer: self.table_viewer.after_navigate_up(), ..self },
                Effect::Nothing,
            ),
            KeyCode::Down => (
                AppView { table_viewer: self.table_viewer.after_navigate_down(), ..self },
                Effect::Nothing,
            ),
            KeyCode::Enter => if self.table_viewer.highlighted() is Some {
                (
                    AppView { table_viewer: self.table_viewer.after_select_table(), ..self },
                    Effect::DescribeTable,
                )
            } else {
                (
                    match self.table_viewer.selected_table {
                        Some(name) => AppView {
                            status_message: viewing_table_text(name@),
                            ..self
                        },
                        None => self,
                    },
                    Effect::Nothing,
                )
            },
            KeyCode::PageUp => (
                AppView { table_viewer: self.table_viewer.after_scroll_data_up(), ..self },
                Effect::Nothing,
            ),
            KeyCode::PageDown => (
                AppView { table_viewer: self.table_viewer.after_scroll_data_down(), ..self },
                Effect::Nothing,
            ),
            _ => (self, Effect::Nothing),
        }
    }

    /// The state and the outside work after a key press.
    pub open spec fn key_step(self, key: KeyInput) -> (AppView, Effect) {
        match self.mode {
            AppMode::FileBrowser => self.file_browser_key(key),
            AppMode::DataPreview => (self.data_preview_key(key), Effect::Nothing),
            AppMode::TableImport => self.table_import_key(key),
            AppMode::QueryMode => (self, Effect::Nothing),
            AppMode::TableViewer => self.table_viewer_key(key),
        }
    }
}

impl App {
    /// The application at start: running, showing `file_browser`, with empty
    /// preview and table viewer and the welcome message.
    pub fn new(file_browser: FileBrowser) -> (app: Self)
        ensures
            app.running,
            app.mode == AppMode::FileBrowser,
            app.file_browser == file_browser,
            app.data_preview.is_initial(),
            app.table_viewer.is_initial(),
            app.selected_file is None,
            app.table_name@ == Seq::<char>::empty(),
            app.status_message@ == welcome_text(),
    {
        let status_message = String::from_str(
            "Welcome to Duckize! Navigate files with arrows, Enter to select. Press Tab to switch views.",
        );
        App {
            running: true,
            mode: AppMode::FileBrowser,
            file_browser,
            data_preview: DataPreview::new(),
            table_viewer: TableViewer::new(),
            selected_file: None,
            table_name: String::new(),
            status_message,
        }
    }

    /// Handles a key press: updates the state as the current view reacts to
    /// the key and returns the outside work it asks for.
    pub fn handle_key_events(&mut self, key: KeyInput) -> (effect: Effect)
        ensures
            (final(self)@, effect) == old(self)@.key_step(key),
    {
        match self.mode {
            AppMode::FileBrowser => self.handle_file_browser_keys(key),
            AppMode::DataPreview => {
                self.handle_data_preview_keys(key);
                Effect::Nothing
            },
            AppMode::TableImport => self.handle_table_import_keys(key),
            AppMode::QueryMode => Effect::Nothing,
            AppMode::TableViewer => self.handle_table_viewer_keys(key),
        }
    }

    fn handle_file_browser_keys(&mut self, key: KeyInput) -> (effect: Effect)
        ensures
            (final(self)@, effect) == old(self)@.file_browser_key(key),
    {
        match key.code {
            KeyCode::Esc => Effect::Quit,
            KeyCode::Char(c) => {
                if c == 'q' || ((c == 'c' || c == 'C') && key.control_only) {
                    Effect::Quit
                } else {
                    Effect::Nothing
                }
            },
            KeyCode::Up => {
                self.file_browser.navigate_up();
                Effect::Nothing
            },
            KeyCode::Down => {
                self.file_browser.navigate_down();
                Effect::Nothing
            },
            KeyCode::Tab => {
                self.mode = AppMode::TableViewer;
                Effect::ListTables
            },
            KeyCode::Enter => {
                let selected = match self.file_browser.get_selected_file() {
                    Some(file) => Some(file.path.clone()),
                    None => None,
                };
                match selected {
                    Some(path) => {
                        let kind = file_kind(path.as_str());
                        self.selected_file = Some(path);
                        Effect::OpenFile(kind)
                    },
                    None => {
                        if self.file_browser.enter_directory() {
                            Effect::ListDirectory
                        } else {
                            Effect::Nothing
                        }
                    },
                }
            },
            _ => Effect::Nothing,
        }
    }

    fn handle_data_preview_keys(&mut self, key: KeyInput)
        ensures
            final(self)@ == old(self)@.data_preview_key(key),
    {
        match key.code {
            KeyCode::Esc => {
                self.mode = AppMode::FileBrowser;
                self.status_message = String::from_str("Back to file browser");
            },
            KeyCode::Up => {
                self.data_preview.navigate_up();
                self.data_preview.update_selection();
            },
            KeyCode::Down => {
                self.data_preview.navigate_down();
                self.data_preview.update_selection();
            },
            KeyCode::Left => {
                self.data_preview.navigate_left();
                self.data_preview.update_selection();
            },
            KeyCode::Right => {
                self.data_preview.navigate_right();
                self.data_preview.update_selection();
            },
            KeyCode::Char(c) => {
                if c == ' ' {
                    self.data_preview.toggle_selection();
                }
            },
            KeyCode::Enter => {
                self.mode = AppMode::TableImport;
                self.table_name = String::new();
                self.status_message = String::from_str("Enter table name and press Enter to import");
            },
            _ => {},
        }
    }

    fn handle_table_import_keys(&mut self, key: KeyInput) -> (effect: Effect)
        ensures
            (final(self)@, effect) == old(self)@.table_import_key(key),
    {
        match key.code {
            KeyCode::Esc => {
                self.mode = AppMode::DataPreview;
                self.status_message = String::from_str("Import cancelled");
                Effect::Nothing
            },
            KeyCode::Enter => {
                if self.table_name.as_str().is_empty() {
                    Effect::Nothing
                } else {
                    self.mode = AppMode::FileBrowser;
                    match &self.selected_file {
                        Some(path) => {
                            let kind = file_kind(path.as_str());
                            match kind {
                                FileKind::Unsupported => Effect::Nothing,
                                _ => Effect::Import(kind),
                            }
                        },
                        None => Effect::Nothing,
                    }
                }
            },
            KeyCode::Char(c) => {
                push_char(&mut self.table_name, c);
                Effect::Nothing
            },
            KeyCode::Backspace => {
                pop_char(&mut self.table_name);
                Effect::Nothing
            },
            _ => Effect::Nothing,
        }
    }

    fn handle_table_viewer_keys(&mut self, key: KeyInput) -> (effect: Effect)
        ensures
            (final(self)@, effect) == old(self)@.table_viewer_key(key),
    {
        match key.code {
            KeyCode::Esc | KeyCode::Tab => {
                self.mode = AppMode::FileBrowser;
                self.status_message = String::from_str("Back to file browser. Press Tab to view tables.");
                Effect::Nothing
            },
            KeyCode::Up => {
                self.table_viewer.navigate_up();
                Effect::Nothing
            },
            KeyCode::Down => {
                self.table_viewer.navigate_down();
                Effect::Nothing
            },
            KeyCode::Enter => {
                match self.table_viewer.select_table() {
                    Some(_) => Effect::DescribeTable,
                    None => {
                        self.table_selected();
                        Effect::Nothing
                    },
                }
            },
            KeyCode::PageUp => {
                self.table_viewer.scroll_data_up();
                Effect::Nothing
            },
            KeyCode::PageDown => {
                self.table_viewer.scroll_data_down();
                Effect::Nothing
            },
            _ => Effect::Nothing,
        }
    }

    /// Shows in the status line which table is displayed, if one is.
    pub fn table_selected(&mut self)
        ensures
            final(self)@ == (match old(self).table_viewer.selected_table {
                Some(name) => AppView { status_message: viewing_table_text(name@), ..old(self)@ },
                None => old(self)@,
            }),
    {
        match &self.table_viewer.selected_table {
            Some(name) => {
                let mut s = String::from_str("Viewing table: ");
                s.append(name.as_str());
                s.append(". Use PageUp/PageDown to scroll data.");
                self.status_message = s;
            },
            None => {},
        }
    }

    /// Called on each tick of the event loop; the application has nothing to
    /// update then.
    pub fn tick(&self) {
    }

    /// Stops the application.
    pub fn quit(&mut self)
        ensures
            final(self)@ == (AppView { running: false, ..old(self)@ }),
    {
        self.running = false;
    }

    /// Takes the result of listing the database's tables after switching to
    /// the table viewer (an error as its message). On success the viewer's
    /// list is replaced and the status line says whether there are tables;
    /// on failure the list is emptied, nothing is highlighted and the status
    /// line shows the error.
    pub fn tables_listed(&mut self, listed: Result<Vec<String>, String>)
        ensures
            match listed {
                Ok(t) => final(self)@ == (AppView {
                    table_viewer: old(self).table_viewer.after_refresh_tables(t),
                    status_message: if t@.len() == 0 {
                        "Table Viewer: No tables loaded. Import CSV/Excel files first."@
                    } else {
                        "Table Viewer: Use arrows to navigate, Enter to view table details"@
                    },
                    ..old(self)@
                }),
                Err(e) => final(self).table_viewer.tables@.len() == 0 && final(self)@ == (AppView {
                    table_viewer: TableViewer {
                        tables: final(self).table_viewer.tables,
                        table_list_state: ListSelection { selected: None },
                        ..old(self).table_viewer
                    },
                    status_message: "Error loading tables: "@ + e@,
                    ..old(self)@
                }),
            },
    {
        match self.table_viewer.refresh_tables(listed) {
            Ok(()) => {
                if self.table_viewer.tables.len() == 0 {
                    self.status_message = String::from_str(
                        "Table Viewer: No tables loaded. Import CSV/Excel files first.",
                    );
                } else {
                    self.status_message = String::from_str(
                        "Table Viewer: Use arrows to navigate, Enter to view table details",
                    );
                }
            },
            Err(e) => {
                let mut s = String::from_str("Error loading tables: ");
                s.append(e.as_str());
                self.status_message = s;
                self.table_viewer.tables.clear();
                self.table_viewer.table_list_state = ListSelection::new();
            },
        }
    }

    /// Loads the selected file, whose contents are `contents`, into the
    /// preview (at most a hundred rows), as its kind asks, and reports the
    /// size of the file in the status line. A file of no known kind is not
    /// read; the status line says so. Without a selected file nothing
    /// happens.
    pub fn load_file_preview(&mut self, contents: Vec<u8>) -> (r: Result<(), LoadError>)
        ensures
            old(self).preview_load_result(contents@, *final(self), r),
    {
        let kind = match &self.selected_file {
            Some(path) => file_kind(path.as_str()),
            None => {
                return Ok(());
            },
        };
        match kind {
            FileKind::Csv => {
                match self.data_preview.load_csv(contents.as_slice(), 100) {
                    Ok(()) => {},
                    Err(e) => {
                        return Err(e);
                    },
                }
                self.status_message = loaded_status(
                    "CSV",
                    self.data_preview.total_rows,
                    self.data_preview.total_cols,
                );
            },
            FileKind::Excel => {
                match self.data_preview.load_excel(contents, None, 100) {
                    Ok(()) => {},
                    Err(e) => {
                        return Err(e);
                    },
                }
                self.status_message = loaded_status(
                    "Excel",
                    self.data_preview.total_rows,
                    self.data_preview.total_cols,
                );
            },
            FileKind::Unsupported => {
                self.status_message = String::from_str("Unsupported file type");
            },
        }
        Ok(())
    }

    /// Finishes opening the selected file, whose contents are `contents`:
    /// loads it as `load_file_preview` does and, when that succeeds, shows
    /// the preview with its help text in the status line.
    pub fn file_opened(&mut self, contents: Vec<u8>) -> (r: Result<(), LoadError>)
        ensures
            r is Ok ==> exists|loaded: App| {
                &&& #[trigger] old(self).preview_load_result(contents@, loaded, Ok(()))
                &&& final(self)@ == (AppView {
                    mode: AppMode::DataPreview,
                    status_message: "Use arrows to navigate, Space to select range, Enter to import"@,
                    ..loaded@
                })
            },
            r is Err ==> old(self).preview_load_result(contents@, *final(self), r),
    {
        let ghost data = contents@;
        match self.load_file_preview(contents) {
            Ok(()) => {},
            Err(e) => {
                return Err(e);
            },
        }
        let ghost loaded = *self;
        self.mode = AppMode::DataPreview;
        self.status_message = String::from_str(
            "Use arrows to navigate, Space to select range, Enter to import",
        );
        proof {
            assert(old(self).preview_load_result(data, loaded, Ok(())));
        }
        Ok(())
    }

    /// Whether `new` and `r` are the state and result that `load_file_preview`
    /// gives from this state for a selected file whose contents are `data`.
    pub open spec fn preview_load_result(self, data: Seq<u8>, new: App, r: Result<(), LoadError>) -> bool {
        match self.selected_file {
            None => r is Ok && new@ == self@,
            Some(p) => match file_kind_of(p@) {
                FileKind::Unsupported => r is Ok && new@ == (AppView {
                    status_message: "Unsupported file type"@,
                    ..self@
                }),
                FileKind::Csv => {
                    &&& self.data_preview.csv_load(data, 100, new.data_preview, r)
                    &&& new@ == (match r {
                        Ok(_) => AppView {
                            data_preview: new.data_preview,
                            status_message: loaded_text(
                                "CSV"@,
                                new.data_preview.total_rows,
                                new.data_preview.total_cols,
                            ),
                            ..self@
                        },
                        Err(_) => AppView { data_preview: new.data_preview, ..self@ },
                    })
                },
                FileKind::Excel => {
                    &&& self.data_preview.excel_load(data, None, 100, new.data_preview, r)
                    &&& new@ == (match r {
                        Ok(_) => AppView {
                            data_preview: new.data_preview,
                            status_message: loaded_text(
                                "Excel"@,
                                new.data_preview.total_rows,
                                new.data_preview.total_cols,
                            ),
                            ..self@
                        },
                        Err(_) => AppView { data_preview: new.data_preview, ..self@ },
                    })
                },
            },
        }
    }

    /// The statement that imports the selection of the previewed file into
    /// the table named as typed: `None` without a selected file, for a file
    /// of no known kind, or when the selection's row counts do not fit in a
    /// `usize` (it ends before it starts, or spans every index).
    pub fn import_query(&self) -> (q: Option<String>)
        ensures
            match self.selected_file {
                Some(p) => match file_kind_of(p@) {
                    FileKind::Csv => if import_counts_fit(self.data_preview.selection, true) {
                        q is Some && q->0@ == csv_import_sql(
                            p@,
                            self.table_name@,
                            self.data_preview.selection,
                            true,
                        )
                    } else {
                        q is None
                    },
                    FileKind::Excel => if import_counts_fit(self.data_preview.selection, true) {
                        q is Some && q->0@ == excel_import_sql(
                            p@,
                            self.table_name@,
                            import_sheet(),
                            self.data_preview.selection,
                            true,
                        )
                    } else {
                        q is None
                    },
                    FileKind::Unsupported => q is None,
                },
                None => q is None,
            },
    {
        match &self.selected_file {
            Some(path) => {
                let kind = file_kind(path.as_str());
                let range = &self.data_preview.selection;
                if !counts_fit(range, true) {
                    return None;
                }
                match kind {
                    FileKind::Csv => Some(
                        import_csv_query(path.as_str(), self.table_name.as_str(), range, true),
                    ),
                    FileKind::Excel => Some(
                        import_excel_query(
                            path.as_str(),
                            self.table_name.as_str(),
                            "Sheet1",
                            range,
                            true,
                        ),
                    ),
                    FileKind::Unsupported => None,
                }
            },
            None => None,
        }
    }

    /// Takes the result of an import (an error as its message) and reports
    /// it in the status line; returns `true` when the import succeeded, so
    /// that the caller lists the tables again for the table viewer.
    pub fn import_finished(&mut self, result: Result<(), String>) -> (refresh: bool)
        ensures
            refresh == result is Ok,
            match result {
                Ok(_) => final(self)@ == (AppView {
                    status_message: "Successfully imported table: "@ + old(self).table_name@
                        + ". Press Tab to view tables."@,
                    ..old(self)@
                }),
                Err(e) => final(self)@ == (AppView {
                    status_message: "Import failed: "@ + e@,
                    ..old(self)@
                }),
            },
    {
        match result {
            Ok(()) => {
                let mut s = String::from_str("Successfully imported table: ");
                s.append(self.table_name.as_str());
                s.append(". Press Tab to view tables.");
                self.status_message = s;
                true
            },
            Err(e) => {
                let mut s = String::from_str("Import failed: ");
                s.append(e.as_str());
                self.status_message = s;
                false
            },
        }
    }

    /// The text of the status bar: the name of the view in brackets, then
    /// the status line.
    pub fn status_bar_text(&self) -> (t: String)
        ensures
            t@ == "["@ + mode_label(self.mode) + "] "@ + self.status_message@,
    {
        let mut t = String::from_str("[");
        let label = match self.mode {
            AppMode::FileBrowser => "File Browser",
            AppMode::DataPreview => "Data Preview",
            AppMode::TableImport => "Table Import",
            AppMode::QueryMode => "Query Mode",
            AppMode::TableViewer => "Table Viewer",
        };
        t.append(label);
        t.append("] ");
        t.append(self.status_message.as_str());
        t
    }

    /// The text of the table name prompt of the import view.
    pub fn table_name_prompt(&self) -> (t: String)
        ensures
            t@ == "Table name: "@ + self.table_name@,
    {
        let mut t = String::from_str("Table name: ");
        t.append(self.table_name.as_str());
        t
    }
}

fn loaded_status(kind: &str, rows: usize, cols: usize) -> (s: String)
    ensures
        s@ == loaded_text(kind@, rows, cols),
{
    let mut s = String::from_str("Loaded ");
    s.append(kind);
    s.append(": ");
    push_decimal(&mut s, rows);
    s.append(" rows × ");
    push_decimal(&mut s, cols);
    s.append(" columns");
    s
}

} // verus!

verus! {

/// While a table name is typed, typing a character and erasing it again
/// gives back the same state, and neither key asks for outside work.
pub proof fn lemma_type_then_erase(a: AppView, c: char)
    requires
        a.mode == AppMode::TableImport,
    ensures
        ({
            let (b, e1) = a.key_step(KeyInput { code: KeyCode::Char(c), control_only: false });
            let (d, e2) = b.key_step(KeyInput { code: KeyCode::Backspace, control_only: false });
            &&& e1 == Effect::Nothing
            &&& e2 == Effect::Nothing
            &&& d == a
        }),
{
    let (b, e1) = a.key_step(KeyInput { code: KeyCode::Char(c), control_only: false });
    assert(b.table_name.drop_last() =~= a.table_name);
}

/// No key press stops the application by itself: only `quit`, which the
/// `Quit` effect asks for, does.
pub proof fn lemma_keys_keep_running(a: AppView, key: KeyInput)
    ensures
        a.key_step(key).0.running == a.running,
{
}

/// Starting an import from the preview and cancelling it returns to the
/// preview with its cursor and selection as they were.
pub proof fn lemma_cancel_import_keeps_preview(a: AppView)
    requires
        a.mode == AppMode::DataPreview,
    ensures
        ({
            let (b, e1) = a.key_step(KeyInput { code: KeyCode::Enter, control_only: false });
            let (d, e2) = b.key_step(KeyInput { code: KeyCode::Esc, control_only: false });
            &&& e1 == Effect::Nothing
            &&& e2 == Effect::Nothing
            &&& b.mode == AppMode::TableImport
            &&& d.mode == AppMode::DataPreview
            &&& d.data_preview == a.data_preview
            &&& d.file_browser == a.file_browser
            &&& d.table_viewer == a.table_viewer
            &&& d.selected_file == a.selected_file
        }),
{
}

/// Tab switches from the file browser to the table viewer, asking for the
/// tables to be listed, and from the table viewer back to the file browser.
pub proof fn lemma_tab_switches_views(a: AppView)
    ensures
        a.mode == AppMode::FileBrowser ==> a.key_step(
            KeyInput { code: KeyCode::Tab, control_only: false },
        ) == (AppView { mode: AppMode::TableViewer, ..a }, Effect::ListTables),
        a.mode == AppMode::TableViewer ==> a.key_step(
            KeyInput { code: KeyCode::Tab, control_only: false },
        ).0.mode == AppMode::FileBrowser,
{
}

/// In the file browser, Esc, `q` and Control-C (with the letter in either
/// case, Control the only modifier) ask to
/// quit and change nothing else.
pub proof fn lemma_quit_keys(a: AppView, control_only: bool)
    requires
        a.mode == AppMode::FileBrowser,
    ensures
        a.key_step(KeyInput { code: KeyCode::Esc, control_only }) == (a, Effect::Quit),
        a.key_step(KeyInput { code: KeyCode::Char('q'), control_only }) == (a, Effect::Quit),
        a.key_step(KeyInput { code: KeyCode::Char('c'), control_only: true }) == (a, Effect::Quit),
        a.key_step(KeyInput { code: KeyCode::Char('C'), control_only: true }) == (a, Effect::Quit),
        a.key_step(KeyInput { code: KeyCode::Char('c'), control_only: false }) == (
            a,
            Effect::Nothing,
        ),
{
}

} // verus!

verus! {

/// In the data preview the arrow keys move the cursor one cell, within the
/// loaded data, and ask for no outside work: Left and Up go back a column
/// or a row unless at the first, Right goes on unless at the last column,
/// Down unless at the last loaded row; the other coordinate stays.
pub proof fn lemma_preview_arrow_keys(a: AppView, control_only: bool)
    requires
        a.mode == AppMode::DataPreview,
    ensures
        ({
            let p = a.data_preview;
            let (l, el) = a.key_step(KeyInput { code: KeyCode::Left, control_only });
            let (r, er) = a.key_step(KeyInput { code: KeyCode::Right, control_only });
            let (u, eu) = a.key_step(KeyInput { code: KeyCode::Up, control_only });
            let (d, ed) = a.key_step(KeyInput { code: KeyCode::Down, control_only });
            &&& el == Effect::Nothing && er == Effect::Nothing
            &&& eu == Effect::Nothing && ed == Effect::Nothing
            &&& l.mode == AppMode::DataPreview && r.mode == AppMode::DataPreview
            &&& u.mode == AppMode::DataPreview && d.mode == AppMode::DataPreview
            &&& l.data_preview.cursor_col == (if p.cursor_col > 0 {
                p.cursor_col - 1
            } else {
                p.cursor_col as int
            })
            &&& l.data_preview.cursor_row == p.cursor_row
            &&& r.data_preview.cursor_col == (if p.cursor_col + 1 < p.total_cols {
                p.cursor_col + 1
            } else {
                p.cursor_col as int
            })
            &&& r.data_preview.cursor_row == p.cursor_row
            &&& u.data_preview.cursor_row == (if p.cursor_row > 0 {
                p.cursor_row - 1
            } else {
                p.cursor_row as int
            })
            &&& u.data_preview.cursor_col == p.cursor_col
            &&& d.data_preview.cursor_row == (if p.cursor_row + 1 < p.rows@.len() {
                p.cursor_row + 1
            } else {
                p.cursor_row as int
            })
            &&& d.data_preview.cursor_col == p.cursor_col
        }),
{
    let p = a.data_preview;
    assert(p.rows@.len() == p.rows.len());
}

/// Opening a CSV file whose header row and first hundred records (or all
/// its records, when it has fewer) can be read succeeds and loads exactly
/// those records: as many as there are up to a hundred, each with its
/// fields, the header row as column names, and the status line reporting
/// that row and column count.
pub proof fn lemma_open_csv_loads_up_to_a_hundred_records(a: App, data: Seq<u8>, new: App, r: Result<(), LoadError>)
    requires
        a.selected_file matches Some(p) && file_kind_of(p@) == FileKind::Csv,
        csv_contents(data).0 is Some,
        forall|i: int|
            0 <= i < 100 && i < csv_contents(data).1.len() ==> #[trigger] csv_contents(data).1[i] is Some,
        a.preview_load_result(data, new, r),
    ensures
        r is Ok,
        ({
            let header = csv_contents(data).0.unwrap();
            let records = csv_contents(data).1;
            let n: int = if records.len() < 100 { records.len() as int } else { 100 };
            &&& new.data_preview.total_rows == n
            &&& new.data_preview.total_cols == header.len() as usize
            &&& string_views(new.data_preview.headers@) == header
            &&& text_rows(new.data_preview.rows@).len() == n
            &&& forall|i: int| 0 <= i < n ==> #[trigger] text_rows(new.data_preview.rows@)[i] == records[i].unwrap()
            &&& new.status_message@ == loaded_text("CSV"@, n as usize, header.len() as usize)
            &&& new.mode == a.mode
        }),
{
    let records = csv_contents(data).1;
    let n: int = if records.len() < 100 { records.len() as int } else { 100 };
    assert(crate::data_preview::records_in_reach(records, 100) == n);
    assert(crate::data_preview::records_readable(records, n));
}

/// Opening an Excel file loads its first worksheet, at most a hundred rows of
/// data after the header row, and reports the worksheet's full size.
pub proof fn lemma_open_excel_loads_up_to_a_hundred_rows(a: App, data: Seq<u8>, new: App, r: Result<(), LoadError>)
    requires
        a.selected_file matches Some(p) && file_kind_of(p@) == FileKind::Excel,
        xlsx_contents(data) is Some,
        xlsx_contents(data).unwrap().0.len() > 0,
        xlsx_contents(data).unwrap().1.dom().contains(xlsx_contents(data).unwrap().0[0]),
        xlsx_contents(data).unwrap().1[xlsx_contents(data).unwrap().0[0]].len() <= usize::MAX,
        a.preview_load_result(data, new, r),
    ensures
        r is Ok,
        ({
            let cells = xlsx_contents(data).unwrap().1[xlsx_contents(data).unwrap().0[0]];
            let n: int = if cells.len() <= 1 {
                0
            } else if cells.len() - 1 <= 100 {
                cells.len() - 1
            } else {
                100
            };
            &&& new.data_preview.total_rows == cells.len()
            &&& text_rows(new.data_preview.rows@).len() == n
            &&& forall|i: int| 0 <= i < n ==> #[trigger] text_rows(new.data_preview.rows@)[i] == cells[i + 1]
            &&& new.status_message@ == loaded_text(
                "Excel"@,
                cells.len() as usize,
                new.data_preview.total_cols,
            )
        }),
{
    crate::data_preview::lemma_excel_loads_first_sheet(a.data_preview, data, 100, new.data_preview, r);
}

} // verus!
