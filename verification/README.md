# Duckize

A terminal browser for CSV and Excel files: it lists the data files of a
directory, previews a file as a table, lets the user select a rectangle of
cells and imports the selected rows into an in-memory DuckDB database, whose
tables it then shows.

## Layout

- `src/` is the library, verified with Verus:
  - `app.rs`: the application state and its key handling, written as a step
    function from state and key to new state and the outside work to do;
  - `file_browser.rs`: the directory listing, its filter and its order
    (directories first, then by name, a stable sort);
  - `data_preview.rs`: loading CSV and Excel data, the cursor and the
    selection;
  - `table_viewer.rs`: the list of tables and the rows shown of one;
  - `sql.rs`: the statements sent to DuckDB;
  - `sources.rs`, `paths.rs`: the calls into `csv`, `calamine` and
    `std::path`, with the contracts the library relies on;
  - `text.rs`, `selection.rs`: text helpers and the highlighted line of a list.
- `tests/` runs the library on concrete inputs.
- `app/` is the program around it: the terminal loop, drawing with ratatui,
  reading directories and files, and running statements on DuckDB.
