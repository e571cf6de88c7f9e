use vstd::prelude::*;
use crate::selection::ListSelection;
use crate::text::{string_views, text_rows, decimal, push_decimal};
use vstd::string::*;
use crate::sources::{
    sheet_cells, csv_contents, reader_header, reader_records, csv_reader, csv_headers,
    csv_next_record, csv_error_text, xlsx_contents, workbook_sheets, workbook_ranges, xlsx_open,
    xlsx_sheet_names, xlsx_worksheet_range, xlsx_error_text, range_size, range_cell_text,
};

verus! {

/// A rectangle of cells, given by its first and last row and column (both
/// inclusive).
#[derive(Clone, Copy, Debug)]
pub struct DataRange {
    pub start_row: usize,
    pub end_row: usize,
    pub start_col: usize,
    pub end_col: usize,
}

/// The smaller of two indices.
pub open spec fn min_index(a: usize, b: usize) -> usize {
    if a <= b { a } else { b }
}

/// The larger of two indices.
pub open spec fn max_index(a: usize, b: usize) -> usize {
    if a <= b { b } else { a }
}

/// The rectangle spanned by the cells `(row_a, col_a)` and `(row_b, col_b)`,
/// whichever corners they are.
pub open spec fn span(row_a: usize, col_a: usize, row_b: usize, col_b: usize) -> DataRange {
    DataRange {
        start_row: min_index(row_a, row_b),
        end_row: max_index(row_a, row_b),
        start_col: min_index(col_a, col_b),
        end_col: max_index(col_a, col_b),
    }
}

/// `n - 1`, or 0 when `n` is 0.
pub open spec fn last_index(n: usize) -> usize {
    if n == 0 { 0 } else { (n - 1) as usize }
}

/// Whether the cell `(row, col)` lies in `r`.
pub open spec fn range_contains(r: DataRange, row: int, col: int) -> bool {
    &&& r.start_row <= row <= r.end_row
    &&& r.start_col <= col <= r.end_col
}

/// How many of `records` a load of at most `limit` of them reaches.
pub open spec fn records_in_reach(records: Seq<Option<Seq<Seq<char>>>>, limit: usize) -> int {
    if limit <= records.len() {
        limit as int
    } else {
        records.len() as int
    }
}

/// Whether the first `n` of `records` can all be read.
pub open spec fn records_readable(records: Seq<Option<Seq<Seq<char>>>>, n: int) -> bool {
    forall|i: int| 0 <= i < n ==> #[trigger] records[i] is Some
}

/// The fields of the first `n` of `records`.
pub open spec fn record_rows(records: Seq<Option<Seq<Seq<char>>>>, n: int) -> Seq<Seq<Seq<char>>> {
    Seq::new(n as nat, |i: int| records[i]->0)
}

fn smaller(a: usize, b: usize) -> (r: usize)
    ensures
        r == min_index(a, b),
{
    if a <= b { a } else { b }
}

fn larger(a: usize, b: usize) -> (r: usize)
    ensures
        r == max_index(a, b),
{
    if a <= b { b } else { a }
}

fn span_exec(row_a: usize, col_a: usize, row_b: usize, col_b: usize) -> (r: DataRange)
    ensures
        r == span(row_a, col_a, row_b, col_b),
{
    DataRange {
        start_row: smaller(row_a, row_b),
        end_row: larger(row_a, row_b),
        start_col: smaller(col_a, col_b),
        end_col: larger(col_a, col_b),
    }
}

/// The preview of a loaded file: its header row, the first rows of data, a
/// cursor over the cells and the rectangle of cells chosen for import.
#[derive(Clone, Debug)]
pub struct DataPreview {
    pub headers: Vec<String>,
    pub rows: Vec<Vec<String>>,
    pub total_rows: usize,
    pub total_cols: usize,
    pub selection: DataRange,
    pub table_state: ListSelection,
    pub cursor_row: usize,
    pub cursor_col: usize,
    pub selecting: bool,
    pub selection_start: Option<(usize, usize)>,
}

impl DataPreview {
    /// Whether the preview is as `new` makes it.
    pub open spec fn is_initial(self) -> bool {
        &&& self.headers@.len() == 0
        &&& self.rows@.len() == 0
        &&& self.total_rows == 0
        &&& self.total_cols == 0
        &&& self.selection == (DataRange { start_row: 0, end_row: 0, start_col: 0, end_col: 0 })
        &&& self.table_state.selected is None
        &&& self.cursor_row == 0
        &&& self.cursor_col == 0
        &&& !self.selecting
        &&& self.selection_start is None
    }

    /// An empty preview: no data, the cursor and the selection at the first
    /// cell, nothing being selected.
    pub fn new() -> (p: Self)
        ensures
            p.is_initial(),
    {
        DataPreview {
            headers: Vec::new(),
            rows: Vec::new(),
            total_rows: 0,
            total_cols: 0,
            selection: DataRange { start_row: 0, end_row: 0, start_col: 0, end_col: 0 },
            table_state: ListSelection::new(),
            cursor_row: 0,
            cursor_col: 0,
            selecting: false,
            selection_start: None,
        }
    }

    /// The preview after `navigate_up`.
    pub open spec fn after_navigate_up(self) -> DataPreview {
        if self.cursor_row > 0 {
            DataPreview {
                cursor_row: (self.cursor_row - 1) as usize,
                table_state: ListSelection { selected: Some((self.cursor_row - 1) as usize) },
                ..self
            }
        } else {
            self
        }
    }

    /// The preview after `navigate_down`.
    pub open spec fn after_navigate_down(self) -> DataPreview {
        if self.cursor_row < last_index(self.rows@.len() as usize) {
            DataPreview {
                cursor_row: (self.cursor_row + 1) as usize,
                table_state: ListSelection { selected: Some((self.cursor_row + 1) as usize) },
                ..self
            }
        } else {
            self
        }
    }

    /// The preview after `navigate_left`.
    pub open spec fn after_navigate_left(self) -> DataPreview {
        if self.cursor_col > 0 {
            DataPreview { cursor_col: (self.cursor_col - 1) as usize, ..self }
        } else {
            self
        }
    }

    /// The preview after `navigate_right`.
    pub open spec fn after_navigate_right(self) -> DataPreview {
        if self.cursor_col < last_index(self.total_cols) {
            DataPreview { cursor_col: (self.cursor_col + 1) as usize, ..self }
        } else {
            self
        }
    }

    /// The preview after `toggle_selection`.
    pub open spec fn after_toggle_selection(self) -> DataPreview {
        if !self.selecting {
            DataPreview {
                selecting: true,
                selection_start: Some((self.cursor_row, self.cursor_col)),
                selection: span(self.cursor_row, self.cursor_col, self.cursor_row, self.cursor_col),
                ..self
            }
        } else {
            DataPreview {
                selecting: false,
                selection_start: None,
                selection: match self.selection_start {
                    Some((r, c)) => span(r, c, self.cursor_row, self.cursor_col),
                    None => self.selection,
                },
                ..self
            }
        }
    }

    /// The preview after `update_selection`.
    pub open spec fn after_update_selection(self) -> DataPreview {
        match (self.selecting, self.selection_start) {
            (true, Some((r, c))) => DataPreview {
                selection: span(r, c, self.cursor_row, self.cursor_col),
                ..self
            },
            _ => self,
        }
    }

    /// Moves the cursor one row up, unless it is on the first row; the table
    /// highlights the cursor's row.
    pub fn navigate_up(&mut self)
        ensures
            *final(self) == old(self).after_navigate_up(),
    {
        if self.cursor_row > 0 {
            self.cursor_row -= 1;
            self.table_state.select(Some(self.cursor_row));
        }
    }

    /// Moves the cursor one row down, unless it is on the last loaded row (or
    /// below it); the table highlights the cursor's row.
    pub fn navigate_down(&mut self)
        ensures
            *final(self) == old(self).after_navigate_down(),
    {
        if self.cursor_row < self.rows.len().saturating_sub(1) {
            self.cursor_row += 1;
            self.table_state.select(Some(self.cursor_row));
        }
    }

    /// Moves the cursor one column left, unless it is in the first column.
    pub fn navigate_left(&mut self)
        ensures
            *final(self) == old(self).after_navigate_left(),
    {
        if self.cursor_col > 0 {
            self.cursor_col -= 1;
        }
    }

    /// Moves the cursor one column right, unless it is in the last column of
    /// the file (or beyond it).
    pub fn navigate_right(&mut self)
        ensures
            *final(self) == old(self).after_navigate_right(),
    {
        if self.cursor_col < self.total_cols.saturating_sub(1) {
            self.cursor_col += 1;
        }
    }

    /// Starts a selection at the cursor, or ends the one under way with the
    /// rectangle between its starting cell and the cursor.
    pub fn toggle_selection(&mut self)
        ensures
            *final(self) == old(self).after_toggle_selection(),
            !old(self).selecting ==> final(self).selecting && final(self).selection == (DataRange {
                start_row: old(self).cursor_row,
                end_row: old(self).cursor_row,
                start_col: old(self).cursor_col,
                end_col: old(self).cursor_col,
            }) && final(self).selection_start == Some((old(self).cursor_row, old(self).cursor_col)),
    {
        if !self.selecting {
            self.selecting = true;
            self.selection_start = Some((self.cursor_row, self.cursor_col));
            self.selection = DataRange {
                start_row: self.cursor_row,
                end_row: self.cursor_row,
                start_col: self.cursor_col,
                end_col: self.cursor_col,
            };
        } else {
            self.selecting = false;
            if let Some((start_row, start_col)) = self.selection_start {
                self.selection = span_exec(start_row, start_col, self.cursor_row, self.cursor_col);
            }
            self.selection_start = None;
        }
    }

    /// While a selection is under way, stretches it from its starting cell to
    /// the cursor.
    pub fn update_selection(&mut self)
        ensures
            *final(self) == old(self).after_update_selection(),
    {
        if self.selecting {
            if let Some((start_row, start_col)) = self.selection_start {
                self.selection = span_exec(start_row, start_col, self.cursor_row, self.cursor_col);
            }
        }
    }

    /// The preview after loading: `headers` and `rows` in place, the file's
    /// size recorded, the selection stretched to the file's last row and
    /// column, and the table's first row highlighted when there are rows.
    pub open spec fn loaded(
        self,
        headers: Vec<String>,
        rows: Vec<Vec<String>>,
        total_rows: usize,
        total_cols: usize,
    ) -> DataPreview {
        DataPreview {
            headers,
            rows,
            total_rows,
            total_cols,
            selection: DataRange {
                end_row: last_index(total_rows),
                end_col: last_index(total_cols),
                ..self.selection
            },
            table_state: if rows@.len() > 0 {
                ListSelection { selected: Some(0usize) }
            } else {
                self.table_state
            },
            ..self
        }
    }

    /// Whether `new` is this preview with `header` as its header row and
    /// `rows` as its rows, its column count that of the header row, and
    /// nothing else changed.
    pub open spec fn with_table(self, new: DataPreview, header: Seq<Seq<char>>, rows: Seq<Seq<Seq<char>>>) -> bool {
        &&& string_views(new.headers@) == header
        &&& text_rows(new.rows@) == rows
        &&& new == (DataPreview {
            headers: new.headers,
            rows: new.rows,
            total_cols: header.len() as usize,
            ..self
        })
    }

    /// Whether `new` and `r` are the preview and result of loading the CSV
    /// text `data`, at most `preview_rows` records of it. Where the header
    /// row cannot be read the preview is unchanged and the load fails. Where
    /// the records in reach can all be read, they are loaded, the row count
    /// is theirs and the column count the header row's. Else the load fails
    /// at the first that cannot be read, with the header row and the records
    /// before it in place.
    pub open spec fn csv_load(self, data: Seq<u8>, preview_rows: usize, new: DataPreview, r: Result<(), LoadError>) -> bool {
        let (header, records) = csv_contents(data);
        let n = records_in_reach(records, preview_rows);
        match header {
            None => r is Err && r->Err_0 is Csv && new == self,
            Some(h) => if records_readable(records, n) {
                &&& r is Ok
                &&& string_views(new.headers@) == h
                &&& text_rows(new.rows@) == record_rows(records, n)
                &&& new == self.loaded(new.headers, new.rows, n as usize, h.len() as usize)
            } else {
                &&& r is Err
                &&& r->Err_0 is Csv
                &&& exists|k: int| {
                    &&& 0 <= k < n
                    &&& records_readable(records, k)
                    &&& #[trigger] records[k] is None
                    &&& self.with_table(new, h, record_rows(records, k))
                }
            },
        }
    }

    /// Whether `new` is this preview after loading the worksheet whose cell
    /// texts are `cells`: its first row as header row, up to `preview_rows`
    /// of the rows after it as data, its size recorded.
    pub open spec fn sheet_loaded(self, new: DataPreview, cells: Seq<Seq<Seq<char>>>, preview_rows: usize) -> bool {
        &&& string_views(new.headers@) == (if cells.len() > 0 {
            cells[0]
        } else {
            Seq::empty()
        })
        &&& text_rows(new.rows@) == (if cells.len() > 1 {
            cells.subrange(1, min_index(cells.len() as usize, (preview_rows + 1) as usize) as int)
        } else {
            Seq::empty()
        })
        &&& new == self.loaded(new.headers, new.rows, cells.len() as usize, sheet_width(cells) as usize)
    }

    /// Whether `new` and `r` are the preview and result of loading the Excel
    /// workbook `data`: its worksheet named `sheet_name`, or its first
    /// worksheet, as `sheet_loaded` says, at most `preview_rows` rows of
    /// data. A workbook that cannot be opened, or that has no worksheet, is
    /// an error; a worksheet whose range cannot be read leaves the preview
    /// unchanged, and the load succeeds.
    pub open spec fn excel_load(
        self,
        data: Seq<u8>,
        sheet_name: Option<Seq<char>>,
        preview_rows: usize,
        new: DataPreview,
        r: Result<(), LoadError>,
    ) -> bool {
        match xlsx_contents(data) {
            None => r is Err && r->Err_0 is Excel && new == self,
            Some(book) => if book.0.len() == 0 {
                r is Err && r->Err_0 is NoWorksheet && new == self
            } else {
                let name = match sheet_name {
                    Some(n) => n,
                    None => book.0[0],
                };
                &&& r is Ok
                &&& if book.1.dom().contains(name) {
                    self.sheet_loaded(new, book.1[name], preview_rows)
                } else {
                    new == self
                }
            },
        }
    }

    fn finish_load(&mut self)
        ensures
            *final(self) == old(self).loaded(
                old(self).headers,
                old(self).rows,
                old(self).total_rows,
                old(self).total_cols,
            ),
    {
        self.selection.end_row = self.total_rows.saturating_sub(1);
        self.selection.end_col = self.total_cols.saturating_sub(1);
        if self.rows.len() > 0 {
            self.table_state.select(Some(0));
        }
    }

    /// Loads the header row and up to `preview_rows` records of the CSV text
    /// `contents`, as `csv_load` says. The file's row count is that of the
    /// records loaded, its column count that of the header row.
    pub fn load_csv(&mut self, contents: &[u8], preview_rows: usize) -> (r: Result<(), LoadError>)
        ensures
            old(self).csv_load(contents@, preview_rows, *final(self), r),
    {
        let ghost header = csv_contents(contents@).0;
        let ghost records = csv_contents(contents@).1;
        let mut reader = csv_reader(contents);
        let headers = match csv_headers(&mut reader) {
            Ok(h) => h,
            Err(e) => {
                return Err(LoadError::Csv(csv_error_text(&e)));
            },
        };
        self.headers = headers;
        self.total_cols = self.headers.len();
        self.rows.clear();
        let ghost start = *self;
        let mut i: usize = 0;
        proof {
            assert(records.skip(0) =~= records);
            assert(text_rows(self.rows@) =~= record_rows(records, 0));
            assert(text_rows(self.rows@) =~= Seq::<Seq<Seq<char>>>::empty());
            assert(old(self).with_table(start, string_views(start.headers@), Seq::empty()));
        }
        loop
            invariant_except_break
                reader_records(reader) == records.skip(i as int),
            invariant
                (header, records) == csv_contents(contents@),
                header == Some(string_views(start.headers@)),
                i <= preview_rows,
                i <= records.len(),
                records_readable(records, i as int),
                text_rows(self.rows@) == record_rows(records, i as int),
                i == self.rows@.len(),
                *self == (DataPreview { rows: self.rows, ..start }),
                old(self).with_table(start, string_views(start.headers@), Seq::empty()),
            ensures
                i == records_in_reach(records, preview_rows),
                records_readable(records, i as int),
                text_rows(self.rows@) == record_rows(records, i as int),
                i == self.rows@.len(),
                *self == (DataPreview { rows: self.rows, ..start }),
            decreases preview_rows - i,
        {
            let next = csv_next_record(&mut reader);
            match next {
                None => {
                    break ;
                },
                Some(result) => {
                    if i >= preview_rows {
                        break ;
                    }
                    match result {
                        Ok(row) => {
                            let ghost before = text_rows(self.rows@);
                            self.rows.push(row);
                            proof {
                                assert(records.skip(i as int)[0] == records[i as int]);
                                assert(records.skip(i as int).drop_first() =~= records.skip(i + 1));
                                assert(text_rows(self.rows@) =~= before.push(records[i as int]->0));
                                assert(record_rows(records, i + 1) =~= record_rows(records, i as int).push(
                                    records[i as int]->0,
                                ));
                            }
                            i += 1;
                        },
                        Err(e) => {
                            proof {
                                assert(records.skip(i as int)[0] == records[i as int]);
                                assert(records[i as int] is None);
                                assert(i < records_in_reach(records, preview_rows));
                                assert(old(self).with_table(*self, string_views(start.headers@), record_rows(records, i as int)));
                            }
                            return Err(LoadError::Csv(csv_error_text(&e)));
                        },
                    }
                },
            }
        }
        self.total_rows = self.rows.len();
        self.finish_load();
        Ok(())
    }

    /// Loads the worksheet `range`: its first row as the header row and up
    /// to `preview_rows` of the rows after it as data, with the size of the
    /// whole range recorded.
    pub fn load_sheet(&mut self, range: &calamine::Range<calamine::Data>, preview_rows: usize)
        requires
            preview_rows < usize::MAX,
        ensures
            old(self).sheet_loaded(*final(self), sheet_cells(*range), preview_rows),
    {
        let ghost cells = sheet_cells(*range);
        let (height, width) = range_size(range);
        self.total_rows = height;
        self.total_cols = width;
        self.headers.clear();
        self.rows.clear();
        let ghost start = *self;
        let mut row_idx: usize = 0;
        proof {
            assert(string_views(self.headers@) =~= Seq::<Seq<char>>::empty());
            assert(text_rows(self.rows@) =~= Seq::<Seq<Seq<char>>>::empty());
        }
        while row_idx < height && row_idx <= preview_rows
            invariant
                height == cells.len(),
                cells == sheet_cells(*range),
                forall|i: int| 0 <= i < height ==> #[trigger] cells[i].len() == width,
                row_idx <= height,
                row_idx <= preview_rows + 1,
                preview_rows < usize::MAX,
                *self == (DataPreview { headers: self.headers, rows: self.rows, ..start }),
                string_views(self.headers@) == (if row_idx > 0 {
                    cells[0]
                } else {
                    Seq::empty()
                }),
                text_rows(self.rows@) == (if row_idx > 1 {
                    cells.subrange(1, row_idx as int)
                } else {
                    Seq::empty()
                }),
            decreases height - row_idx,
        {
            let row_data = sheet_row(range, row_idx, width);
            let ghost before = text_rows(self.rows@);
            if row_idx == 0 {
                self.headers = row_data;
            } else {
                self.rows.push(row_data);
                proof {
                    assert(text_rows(self.rows@) =~= before.push(cells[row_idx as int]));
                    assert(cells.subrange(1, row_idx + 1) =~= (if row_idx > 1 {
                        cells.subrange(1, row_idx as int)
                    } else {
                        Seq::empty()
                    }).push(cells[row_idx as int]));
                }
            }
            row_idx += 1;
        }
        proof {
            assert(row_idx == min_index(height, (preview_rows + 1) as usize));
            if height > 0 {
                assert(width == cells[0].len());
            }
        }
        self.finish_load();
        proof {
            assert(string_views(self.headers@) =~= (if cells.len() > 0 {
                cells[0]
            } else {
                Seq::<Seq<char>>::empty()
            }));
            assert(text_rows(self.rows@) =~= (if cells.len() > 1 {
                cells.subrange(1, min_index(cells.len() as usize, (preview_rows + 1) as usize) as int)
            } else {
                Seq::<Seq<Seq<char>>>::empty()
            }));
        }
    }

    /// Loads the Excel workbook `contents`: the worksheet named `sheet_name`,
    /// or the first worksheet when it is `None`, as `load_sheet` loads it,
    /// and as `excel_load` says. Where the worksheet's range cannot be read
    /// the preview is unchanged and the load still succeeds; a workbook that
    /// cannot be opened, or that has no worksheet, is an error and leaves the
    /// preview unchanged.
    pub fn load_excel(&mut self, contents: Vec<u8>, sheet_name: Option<&str>, preview_rows: usize)
        -> (r: Result<(), LoadError>)
        requires
            preview_rows < usize::MAX,
        ensures
            old(self).excel_load(
                contents@,
                match sheet_name {
                    Some(n) => Some(n@),
                    None => None,
                },
                preview_rows,
                *final(self),
                r,
            ),
            sheet_name is None && xlsx_contents(contents@) is Some && xlsx_contents(
                contents@,
            ).unwrap().0.len() > 0 ==> r is Ok && ({
                let book = xlsx_contents(contents@).unwrap();
                if book.1.dom().contains(book.0[0]) {
                    old(self).sheet_loaded(*final(self), book.1[book.0[0]], preview_rows)
                } else {
                    *final(self) == *old(self)
                }
            }),
    {
        let ghost data = contents@;
        let mut workbook = match xlsx_open(contents) {
            Ok(w) => w,
            Err(e) => {
                return Err(LoadError::Excel(xlsx_error_text(&e)));
            },
        };
        let sheet_names = xlsx_sheet_names(&workbook);
        if sheet_names.len() == 0 {
            return Err(LoadError::NoWorksheet);
        }
        let name: &str = match sheet_name {
            Some(n) => n,
            None => sheet_names[0].as_str(),
        };
        proof {
            assert(string_views(sheet_names@)[0] == sheet_names@[0]@);
        }
        match xlsx_worksheet_range(&mut workbook, name) {
            Ok(range) => {
                self.load_sheet(&range, preview_rows);
            },
            Err(_) => {},
        }
        Ok(())
    }
}

/// How a cell of the preview is drawn.
#[derive(Clone, Copy, Debug, PartialEq, Eq, Structural)]
pub enum CellHighlight {
    /// In the selection and under the cursor.
    SelectedCursor,
    /// In the selection.
    Selected,
    /// Under the cursor.
    Cursor,
    /// Neither.
    Plain,
}

impl DataPreview {
    /// Whether the header of column `col` is drawn as selected.
    pub fn header_selected(&self, col: usize) -> (r: bool)
        ensures
            r == (self.selection.start_col <= col <= self.selection.end_col),
    {
        col >= self.selection.start_col && col <= self.selection.end_col
    }

    /// How the cell at `(row, col)` of the loaded rows is drawn.
    pub fn cell_highlight(&self, row: usize, col: usize) -> (h: CellHighlight)
        ensures
            h == (match (range_contains(self.selection, row as int, col as int), row
                == self.cursor_row && col == self.cursor_col) {
                (true, true) => CellHighlight::SelectedCursor,
                (true, false) => CellHighlight::Selected,
                (false, true) => CellHighlight::Cursor,
                (false, false) => CellHighlight::Plain,
            }),
    {
        let is_selected = row >= self.selection.start_row && row <= self.selection.end_row
            && col >= self.selection.start_col && col <= self.selection.end_col;
        let is_cursor = row == self.cursor_row && col == self.cursor_col;
        if is_selected && is_cursor {
            CellHighlight::SelectedCursor
        } else if is_selected {
            CellHighlight::Selected
        } else if is_cursor {
            CellHighlight::Cursor
        } else {
            CellHighlight::Plain
        }
    }

    /// The title of the preview: the selection's corners, counted from 1.
    pub fn title(&self) -> (t: String)
        requires
            self.selection.start_row < usize::MAX,
            self.selection.start_col < usize::MAX,
            self.selection.end_row < usize::MAX,
            self.selection.end_col < usize::MAX,
        ensures
            t@ == "Data Preview - Selection: ("@ + decimal((self.selection.start_row + 1) as nat)
                + ","@ + decimal((self.selection.start_col + 1) as nat) + ") to ("@ + decimal(
                (self.selection.end_row + 1) as nat,
            ) + ","@ + decimal((self.selection.end_col + 1) as nat) + ")"@,
    {
        let mut t = String::from_str("Data Preview - Selection: (");
        push_decimal(&mut t, self.selection.start_row + 1);
        t.append(",");
        push_decimal(&mut t, self.selection.start_col + 1);
        t.append(") to (");
        push_decimal(&mut t, self.selection.end_row + 1);
        t.append(",");
        push_decimal(&mut t, self.selection.end_col + 1);
        t.append(")");
        t
    }
}

/// Why a file could not be loaded into the preview.
#[derive(Debug)]
pub enum LoadError {
    /// The CSV parser's message.
    Csv(String),
    /// The Excel reader's message.
    Excel(String),
    /// The workbook holds no worksheet.
    NoWorksheet,
}

/// The number of columns of a grid of cells whose rows have equal length.
pub open spec fn sheet_width(cells: Seq<Seq<Seq<char>>>) -> nat {
    if cells.len() > 0 {
        cells[0].len()
    } else {
        0
    }
}

fn sheet_row(range: &calamine::Range<calamine::Data>, row: usize, width: usize) -> (r: Vec<String>)
    requires
        row < sheet_cells(*range).len(),
        width == sheet_cells(*range)[row as int].len(),
    ensures
        string_views(r@) == sheet_cells(*range)[row as int],
{
    let ghost cells = sheet_cells(*range)[row as int];
    let mut r: Vec<String> = Vec::new();
    let mut col: usize = 0;
    while col < width
        invariant
            col <= width,
            row < sheet_cells(*range).len(),
            width == sheet_cells(*range)[row as int].len(),
            cells == sheet_cells(*range)[row as int],
            string_views(r@) == cells.take(col as int),
        decreases width - col,
    {
        let text = range_cell_text(range, row, col);
        r.push(text);
        proof {
            assert(string_views(r@) =~= cells.take(col as int).push(cells[col as int]));
            assert(cells.take(col + 1) =~= cells.take(col as int).push(cells[col as int]));
        }
        col += 1;
    }
    proof {
        assert(cells.take(col as int) =~= cells);
    }
    r
}

} // verus!

verus! {

/// The rectangle spanned by two cells is the smallest that holds both: it
/// holds them, it does not end before it starts, and every rectangle that
/// holds both holds it.
pub proof fn lemma_span_is_bounding_box(row_a: usize, col_a: usize, row_b: usize, col_b: usize, r: DataRange)
    ensures
        span(row_a, col_a, row_b, col_b).start_row <= span(row_a, col_a, row_b, col_b).end_row,
        span(row_a, col_a, row_b, col_b).start_col <= span(row_a, col_a, row_b, col_b).end_col,
        range_contains(span(row_a, col_a, row_b, col_b), row_a as int, col_a as int),
        range_contains(span(row_a, col_a, row_b, col_b), row_b as int, col_b as int),
        range_contains(r, row_a as int, col_a as int) && range_contains(r, row_b as int, col_b as int)
            ==> forall|row: int, col: int|
            range_contains(span(row_a, col_a, row_b, col_b), row, col) ==> #[trigger] range_contains(
                r,
                row,
                col,
            ),
{
}

/// Starting and at once ending a selection selects the cell under the
/// cursor alone.
pub proof fn lemma_toggle_twice_selects_cursor(p: DataPreview)
    requires
        !p.selecting,
    ensures
        p.after_toggle_selection().after_toggle_selection() == (DataPreview {
            selection: DataRange {
                start_row: p.cursor_row,
                end_row: p.cursor_row,
                start_col: p.cursor_col,
                end_col: p.cursor_col,
            },
            selection_start: None,
            ..p
        }),
{
}

/// While a selection is under way, it follows the cursor: after a move and
/// `update_selection` it spans its starting cell and the new cursor.
pub proof fn lemma_selection_follows_cursor(p: DataPreview)
    requires
        p.selecting,
        p.selection_start is Some,
    ensures
        ({
            let (r, c) = p.selection_start->0;
            &&& p.after_navigate_up().after_update_selection().selection == span(
                r,
                c,
                p.after_navigate_up().cursor_row,
                p.cursor_col,
            )
            &&& p.after_navigate_down().after_update_selection().selection == span(
                r,
                c,
                p.after_navigate_down().cursor_row,
                p.cursor_col,
            )
            &&& p.after_navigate_left().after_update_selection().selection == span(
                r,
                c,
                p.cursor_row,
                p.after_navigate_left().cursor_col,
            )
            &&& p.after_navigate_right().after_update_selection().selection == span(
                r,
                c,
                p.cursor_row,
                p.after_navigate_right().cursor_col,
            )
        }),
{
}

/// Moving the cursor down and then up again returns it to its row, which the
/// table then highlights, when there was a row to move down to.
pub proof fn lemma_cursor_down_then_up(p: DataPreview)
    requires
        p.cursor_row < last_index(p.rows@.len() as usize),
    ensures
        p.after_navigate_down().after_navigate_up() == (DataPreview {
            table_state: ListSelection { selected: Some(p.cursor_row) },
            ..p
        }),
{
}

/// Moving the cursor right and then left again returns to the same preview,
/// when there was a column to move right to.
pub proof fn lemma_cursor_right_then_left(p: DataPreview)
    requires
        p.cursor_col < last_index(p.total_cols),
    ensures
        p.after_navigate_right().after_navigate_left() == p,
{
}

} // verus!

verus! {

/// Starting a selection, whatever was selected before, selects the cell under
/// the cursor alone and remembers it as the selection's starting cell.
pub proof fn lemma_start_selection_selects_cursor_cell(p: DataPreview)
    requires
        !p.selecting,
    ensures
        p.after_toggle_selection().selecting,
        p.after_toggle_selection().selection_start == Some((p.cursor_row, p.cursor_col)),
        p.after_toggle_selection().selection.start_row == p.cursor_row,
        p.after_toggle_selection().selection.end_row == p.cursor_row,
        p.after_toggle_selection().selection.start_col == p.cursor_col,
        p.after_toggle_selection().selection.end_col == p.cursor_col,
        p.after_toggle_selection().cursor_row == p.cursor_row,
        p.after_toggle_selection().cursor_col == p.cursor_col,
{
}

/// Loading a workbook without naming a worksheet loads its first worksheet
/// in workbook order: its first row as the header row, then up to
/// `preview_rows` of the rows after it (stated for a worksheet whose row
/// count fits in a `usize`, as that of every range read does), with the
/// worksheet's size recorded; where that worksheet cannot be read the
/// preview is unchanged. The load succeeds whenever the workbook opens and
/// has a worksheet.
pub proof fn lemma_excel_loads_first_sheet(
    p: DataPreview,
    data: Seq<u8>,
    preview_rows: usize,
    new: DataPreview,
    r: Result<(), LoadError>,
)
    requires
        preview_rows < usize::MAX,
        p.excel_load(data, None, preview_rows, new, r),
        xlsx_contents(data) is Some,
        xlsx_contents(data).unwrap().0.len() > 0,
    ensures
        r is Ok,
        ({
            let sheets = xlsx_contents(data).unwrap().0;
            let ranges = xlsx_contents(data).unwrap().1;
            if ranges.dom().contains(sheets[0]) {
                let cells = ranges[sheets[0]];
                &&& string_views(new.headers@) == (if cells.len() > 0 {
                    cells[0]
                } else {
                    Seq::empty()
                })
                &&& (cells.len() <= usize::MAX ==> forall|i: int|
                    0 <= i < text_rows(new.rows@).len() ==> #[trigger] text_rows(new.rows@)[i]
                        == cells[i + 1])
                &&& (cells.len() <= usize::MAX ==> text_rows(new.rows@).len() == (if cells.len() <= 1 {
                    0
                } else if cells.len() - 1 <= preview_rows {
                    cells.len() - 1
                } else {
                    preview_rows as int
                }))
                &&& new.total_rows == cells.len() as usize
                &&& new.total_cols == (if cells.len() > 0 { cells[0].len() } else { 0 }) as usize
            } else {
                new == p
            }
        }),
{
    let sheets = xlsx_contents(data).unwrap().0;
    let ranges = xlsx_contents(data).unwrap().1;
    if ranges.dom().contains(sheets[0]) {
        let cells = ranges[sheets[0]];
        assert(p.sheet_loaded(new, cells, preview_rows));
        if cells.len() > 1 && cells.len() <= usize::MAX {
            let m = min_index(cells.len() as usize, (preview_rows + 1) as usize) as int;
            assert(text_rows(new.rows@) == cells.subrange(1, m));
            assert forall|i: int| 0 <= i < text_rows(new.rows@).len() implies #[trigger] text_rows(
                new.rows@,
            )[i] == cells[i + 1] by {
                assert(cells.subrange(1, m)[i] == cells[i + 1]);
            }
        }
    }
}

} // verus!
