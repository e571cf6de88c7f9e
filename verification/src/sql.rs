//! The SQL text that the application sends to DuckDB.

use vstd::prelude::*;
use vstd::string::*;
use crate::data_preview::DataRange;
use crate::text::{decimal, push_decimal, doubled, double_quotes};

verus! {

/// `true` or `false`, as SQL and Rust write a boolean.
pub open spec fn bool_text(b: bool) -> Seq<char> {
    if b { "true"@ } else { "false"@ }
}

/// How many leading rows of the file an import skips: those before the
/// selection, and the header row when the file has one.
pub open spec fn rows_to_skip(range: DataRange, has_header: bool) -> nat {
    if has_header { (range.start_row + 1) as nat } else { range.start_row as nat }
}

/// How many rows the selection spans.
pub open spec fn rows_to_take(range: DataRange) -> nat {
    (range.end_row - range.start_row + 1) as nat
}

/// Whether the row counts of an import of `range` fit in a `usize`: the
/// selection does not end before it starts, and the counts do not overflow.
pub open spec fn import_counts_fit(range: DataRange, has_header: bool) -> bool {
    &&& range.start_row <= range.end_row
    &&& rows_to_take(range) <= usize::MAX
    &&& rows_to_skip(range, has_header) <= usize::MAX
}

/// Whether the row counts of an import of `range` fit in a `usize`, as the
/// statement builders need.
pub fn counts_fit(range: &DataRange, has_header: bool) -> (r: bool)
    ensures
        r == import_counts_fit(*range, has_header),
{
    range.start_row <= range.end_row && !(range.start_row == 0 && range.end_row == usize::MAX) && (
    !has_header || range.start_row < usize::MAX)
}

/// The statement that creates the table `table` from the rows of the CSV file
/// at `path` that `range` selects.
pub open spec fn csv_import_sql(path: Seq<char>, table: Seq<char>, range: DataRange, has_header: bool) -> Seq<char> {
    "CREATE TABLE \""@ + table + "\" AS \n             SELECT * FROM read_csv('"@ + path
        + "', \n                header = "@ + bool_text(has_header) + ", \n                skip = "@
        + decimal(rows_to_skip(range, has_header)) + "\n             )\n             LIMIT "@
        + decimal(rows_to_take(range))
}

/// The statement that creates the table `table` from the rows of the
/// worksheet `sheet` of the Excel file at `path` that `range` selects.
pub open spec fn excel_import_sql(
    path: Seq<char>,
    table: Seq<char>,
    sheet: Seq<char>,
    range: DataRange,
    has_header: bool,
) -> Seq<char> {
    "CREATE TABLE \""@ + table + "\" AS \n             SELECT * FROM st_read('"@ + path
        + "', \n                layer = '"@ + sheet + "',\n                open_options = ['HEADERS="@
        + (if has_header { "FORCE"@ } else { "DISABLE"@ }) + "']\n             )\n             LIMIT "@
        + decimal(rows_to_take(range)) + " OFFSET "@ + decimal(rows_to_skip(range, has_header))
}

/// The query for the columns of the table `table`, its name written as an
/// SQL string literal.
pub open spec fn schema_sql(table: Seq<char>) -> Seq<char> {
    "SELECT column_name, data_type \n             FROM information_schema.columns \n             WHERE table_schema = 'main' AND table_name = '"@
        + doubled(table, '\'')
        + "' \n             ORDER BY ordinal_position"@
}

/// The query for the first hundred rows of the table `table`, its name
/// written as a quoted SQL identifier.
pub open spec fn preview_sql(table: Seq<char>) -> Seq<char> {
    "SELECT * FROM \""@ + doubled(table, '"') + "\" LIMIT 100"@
}

fn push_bool(s: &mut String, b: bool)
    ensures
        final(s)@ == old(s)@ + bool_text(b),
{
    if b {
        s.append("true");
    } else {
        s.append("false");
    }
}

/// The statement that imports the rows of the CSV file at `file_path` that
/// `range` selects into a new table `table_name`, skipping the header row
/// when `has_header` holds.
pub fn import_csv_query(file_path: &str, table_name: &str, range: &DataRange, has_header: bool) -> (q: String)
    requires
        import_counts_fit(*range, has_header),
    ensures
        q@ == csv_import_sql(file_path@, table_name@, *range, has_header),
{
    let skip_rows = if has_header { range.start_row + 1 } else { range.start_row };
    let limit_rows = range.end_row - range.start_row + 1;
    let mut q = String::new();
    q.append("CREATE TABLE \"");
    q.append(table_name);
    q.append("\" AS \n             SELECT * FROM read_csv('");
    q.append(file_path);
    q.append("', \n                header = ");
    push_bool(&mut q, has_header);
    q.append(", \n                skip = ");
    push_decimal(&mut q, skip_rows);
    q.append("\n             )\n             LIMIT ");
    push_decimal(&mut q, limit_rows);
    q
}

/// The statement that imports the rows of the worksheet `sheet_name` of the
/// Excel file at `file_path` that `range` selects into a new table
/// `table_name`, with the first row as header row when `has_header` holds.
pub fn import_excel_query(
    file_path: &str,
    table_name: &str,
    sheet_name: &str,
    range: &DataRange,
    has_header: bool,
) -> (q: String)
    requires
        import_counts_fit(*range, has_header),
    ensures
        q@ == excel_import_sql(file_path@, table_name@, sheet_name@, *range, has_header),
{
    let skip_rows = if has_header { range.start_row + 1 } else { range.start_row };
    let limit_rows = range.end_row - range.start_row + 1;
    let mut q = String::new();
    q.append("CREATE TABLE \"");
    q.append(table_name);
    q.append("\" AS \n             SELECT * FROM st_read('");
    q.append(file_path);
    q.append("', \n                layer = '");
    q.append(sheet_name);
    q.append("',\n                open_options = ['HEADERS=");
    if has_header {
        q.append("FORCE");
    } else {
        q.append("DISABLE");
    }
    q.append("']\n             )\n             LIMIT ");
    push_decimal(&mut q, limit_rows);
    q.append(" OFFSET ");
    push_decimal(&mut q, skip_rows);
    q
}

/// The query for the columns (name and type, in table order) of the table
/// `table_name`.
pub fn table_schema_query(table_name: &str) -> (q: String)
    ensures
        q@ == schema_sql(table_name@),
{
    let mut q = String::new();
    q.append(
        "SELECT column_name, data_type \n             FROM information_schema.columns \n             WHERE table_schema = 'main' AND table_name = '",
    );
    let escaped = double_quotes(table_name, '\'');
    q.append(escaped.as_str());
    q.append("' \n             ORDER BY ordinal_position");
    q
}

/// The query for the first hundred rows of the table `table_name`.
pub fn table_preview_query(table_name: &str) -> (q: String)
    ensures
        q@ == preview_sql(table_name@),
{
    let mut q = String::new();
    q.append("SELECT * FROM \"");
    let escaped = double_quotes(table_name, '"');
    q.append(escaped.as_str());
    q.append("\" LIMIT 100");
    q
}

} // verus!

verus! {

/// An import reads exactly the selected rows of the file: it skips the rows
/// before the selection (and the header row, where there is one) and takes as
/// many as the selection spans, so it ends with the selection's last row.
pub proof fn lemma_import_reads_the_selection(range: DataRange, has_header: bool)
    requires
        range.start_row <= range.end_row,
    ensures
        rows_to_skip(range, has_header) == range.start_row + (if has_header { 1int } else { 0int }),
        rows_to_skip(range, has_header) + rows_to_take(range) == range.end_row + 1 + (if has_header {
            1int
        } else {
            0int
        }),
{
}

} // verus!

verus! {

/// The Excel import statement ends by taking as many rows as the selection
/// spans (`end_row - start_row + 1`) after skipping those before it and the
/// header row: its `LIMIT` and `OFFSET` close at the selection's last row.
pub proof fn lemma_excel_import_limits_to_the_selection(
    path: Seq<char>,
    table: Seq<char>,
    sheet: Seq<char>,
    range: DataRange,
    has_header: bool,
)
    requires
        range.start_row <= range.end_row,
    ensures
        exists|pre: Seq<char>|
            excel_import_sql(path, table, sheet, range, has_header) == pre
                + "']\n             )\n             LIMIT "@ + decimal(
                (range.end_row - range.start_row + 1) as nat,
            ) + " OFFSET "@ + decimal(
                (range.start_row + (if has_header { 1int } else { 0int })) as nat,
            ),
{
    let pre = "CREATE TABLE \""@ + table + "\" AS \n             SELECT * FROM st_read('"@ + path
        + "', \n                layer = '"@ + sheet + "',\n                open_options = ['HEADERS="@
        + (if has_header { "FORCE"@ } else { "DISABLE"@ });
    assert(excel_import_sql(path, table, sheet, range, has_header) =~= pre
        + "']\n             )\n             LIMIT "@ + decimal(
        (range.end_row - range.start_row + 1) as nat,
    ) + " OFFSET "@ + decimal((range.start_row + (if has_header { 1int } else { 0int })) as nat));
}

/// The CSV import statement skips the rows before the selection and the
/// header row, and then takes as many rows as the selection spans
/// (`end_row - start_row + 1`), so it ends with the selection's last row.
pub proof fn lemma_csv_import_limits_to_the_selection(
    path: Seq<char>,
    table: Seq<char>,
    range: DataRange,
    has_header: bool,
)
    requires
        range.start_row <= range.end_row,
    ensures
        exists|pre: Seq<char>|
            csv_import_sql(path, table, range, has_header) == pre + ", \n                skip = "@
                + decimal((range.start_row + (if has_header { 1int } else { 0int })) as nat)
                + "\n             )\n             LIMIT "@ + decimal(
                (range.end_row - range.start_row + 1) as nat,
            ),
{
    let pre = "CREATE TABLE \""@ + table + "\" AS \n             SELECT * FROM read_csv('"@ + path
        + "', \n                header = "@ + bool_text(has_header);
    assert(csv_import_sql(path, table, range, has_header) =~= pre + ", \n                skip = "@
        + decimal((range.start_row + (if has_header { 1int } else { 0int })) as nat)
        + "\n             )\n             LIMIT "@ + decimal(
        (range.end_row - range.start_row + 1) as nat,
    ));
}

} // verus!
