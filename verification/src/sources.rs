//! The parsers of the `csv` and `calamine` crates, as the data preview calls
//! them on the contents of a file.

use vstd::prelude::*;
use crate::text::string_views;

verus! {

#[verifier::external_type_specification]
#[verifier::external_body]
#[verifier::reject_recursive_types(R)]
pub struct ExCsvReader<R>(csv::Reader<R>);

#[verifier::external_type_specification]
#[verifier::external_body]
pub struct ExCsvError(csv::Error);

#[verifier::external_type_specification]
#[verifier::external_body]
#[verifier::reject_recursive_types(T)]
pub struct ExCursor<T>(std::io::Cursor<T>);

#[verifier::external_type_specification]
#[verifier::external_body]
#[verifier::reject_recursive_types(RS)]
pub struct ExXlsx<RS>(calamine::Xlsx<RS>);

#[verifier::external_type_specification]
#[verifier::external_body]
pub struct ExXlsxError(calamine::XlsxError);

#[verifier::external_type_specification]
#[verifier::external_body]
#[verifier::reject_recursive_types(T)]
pub struct ExRange<T>(calamine::Range<T>);

#[verifier::external_type_specification]
#[verifier::external_body]
pub struct ExData(calamine::Data);

/// The texts of the cells of a worksheet range, row by row, each cell as
/// calamine's `Display` writes it (an empty cell as the empty text).
pub uninterp spec fn sheet_cells(range: calamine::Range<calamine::Data>) -> Seq<Seq<Seq<char>>>;

/// What a CSV reader with the default settings of `csv::Reader::from_reader`
/// (the first record is the header row) finds in `data`: the fields of the
/// header row, or `None` where it cannot be read, and then the records after
/// it in order, each its fields, or `None` where that record cannot be read
/// (a field that is not UTF-8, or a record whose number of fields differs
/// from the header row's).
pub uninterp spec fn csv_contents(data: Seq<u8>) -> (Option<Seq<Seq<char>>>, Seq<Option<Seq<Seq<char>>>>);

/// The header row that `reader` gives: its fields, or `None` where it cannot
/// be read.
pub uninterp spec fn reader_header(reader: csv::Reader<&[u8]>) -> Option<Seq<Seq<char>>>;

/// The records that `reader` has still to give, in order, as `csv_contents`
/// describes them. Reading from a byte slice, a reader gives finitely many.
pub uninterp spec fn reader_records(reader: csv::Reader<&[u8]>) -> Seq<Option<Seq<Seq<char>>>>;

/// Calls `csv::Reader::from_reader` on `data`; the contract claims that the
/// new reader has the header row and the records of `csv_contents(data)` to
/// give.
#[verifier::external_body]
pub(crate) fn csv_reader(data: &[u8]) -> (r: csv::Reader<&[u8]>)
    ensures
        (reader_header(r), reader_records(r)) == csv_contents(data@),
{
    csv::Reader::from_reader(data)
}

/// Calls `csv::Reader::headers` and copies the fields of the header row; the
/// contract claims that they are the reader's header row, that an error comes
/// exactly where that row cannot be read, and that the records still to
/// come are unchanged, as the header row is never one of them.
#[verifier::external_body]
pub(crate) fn csv_headers(reader: &mut csv::Reader<&[u8]>) -> (r: Result<Vec<String>, csv::Error>)
    ensures
        match r {
            Ok(h) => reader_header(*old(reader)) == Some(string_views(h@)),
            Err(_) => reader_header(*old(reader)) is None,
        },
        reader_records(*final(reader)) == reader_records(*old(reader)),
{
    reader.headers().map(|h| h.iter().map(|f| f.to_string()).collect())
}

/// Calls `next` on `csv::Reader::records` and copies the fields of the
/// record; the contract claims that the result is `None` exactly when no
/// record is left, and else the first record left, an error where it cannot
/// be read, after which the reader gives the records after it.
#[verifier::external_body]
pub(crate) fn csv_next_record(reader: &mut csv::Reader<&[u8]>) -> (r: Option<Result<Vec<String>, csv::Error>>)
    ensures
        r is None <==> reader_records(*old(reader)).len() == 0,
        r is Some ==> reader_records(*final(reader)) == reader_records(*old(reader)).drop_first(),
        r is Some ==> match r->0 {
            Ok(fields) => reader_records(*old(reader))[0] == Some(string_views(fields@)),
            Err(_) => reader_records(*old(reader))[0] is None,
        },
{
    reader.records().next().map(|r| r.map(|rec| rec.iter().map(|f| f.to_string()).collect()))
}

/// Calls `to_string` (the `Display` impl) on a `csv::Error`. Nothing is
/// claimed of the message.
#[verifier::external_body]
pub(crate) fn csv_error_text(e: &csv::Error) -> String {
    e.to_string()
}

/// What `calamine`'s `Xlsx` reader finds in the workbook `data` when it opens
/// it: the names of the worksheets in workbook order, and, by name, the cell
/// texts (as `sheet_cells` gives them) of each worksheet whose range it can
/// read; `None` where the workbook cannot be opened.
pub uninterp spec fn xlsx_contents(data: Seq<u8>) -> Option<(Seq<Seq<char>>, Map<Seq<char>, Seq<Seq<Seq<char>>>>)>;

/// The names of the worksheets of an opened workbook, in workbook order.
pub uninterp spec fn workbook_sheets(workbook: calamine::Xlsx<std::io::Cursor<Vec<u8>>>) -> Seq<Seq<char>>;

/// The cell texts of each worksheet of an opened workbook whose range can be
/// read, by the worksheet's name.
pub uninterp spec fn workbook_ranges(workbook: calamine::Xlsx<std::io::Cursor<Vec<u8>>>) -> Map<Seq<char>, Seq<Seq<Seq<char>>>>;

/// Calls `calamine::Reader::new` for `Xlsx` on the contents of a workbook;
/// the contract claims that it fails exactly where `xlsx_contents` is `None`
/// and that the opened workbook holds the worksheets that `xlsx_contents`
/// names.
#[verifier::external_body]
pub(crate) fn xlsx_open(data: Vec<u8>) -> (r: Result<calamine::Xlsx<std::io::Cursor<Vec<u8>>>, calamine::XlsxError>)
    ensures
        r is Ok <==> xlsx_contents(data@) is Some,
        r is Ok ==> xlsx_contents(data@) == Some((workbook_sheets(r->Ok_0), workbook_ranges(r->Ok_0))),
{
    <calamine::Xlsx<std::io::Cursor<Vec<u8>>> as calamine::Reader<std::io::Cursor<Vec<u8>>>>::new(std::io::Cursor::new(data))
}

/// Calls `calamine::Reader::sheet_names`; the contract claims that the
/// result is the workbook's worksheet names, in order.
#[verifier::external_body]
pub(crate) fn xlsx_sheet_names(workbook: &calamine::Xlsx<std::io::Cursor<Vec<u8>>>) -> (r: Vec<String>)
    ensures
        string_views(r@) == workbook_sheets(*workbook),
{
    calamine::Reader::sheet_names(workbook)
}

/// Calls `calamine::Reader::worksheet_range`; the contract claims that it
/// succeeds exactly for a worksheet whose range the workbook can read, and
/// that the range holds that worksheet's cells.
#[verifier::external_body]
pub(crate) fn xlsx_worksheet_range(
    workbook: &mut calamine::Xlsx<std::io::Cursor<Vec<u8>>>,
    name: &str,
) -> (r: Result<calamine::Range<calamine::Data>, calamine::XlsxError>)
    ensures
        r is Ok <==> workbook_ranges(*old(workbook)).dom().contains(name@),
        r is Ok ==> sheet_cells(r->Ok_0) == workbook_ranges(*old(workbook))[name@],
{
    calamine::Reader::worksheet_range(workbook, name)
}

/// Calls `to_string` (the `Display` impl) on a `calamine::XlsxError`.
/// Nothing is claimed of the message.
#[verifier::external_body]
pub(crate) fn xlsx_error_text(e: &calamine::XlsxError) -> String {
    e.to_string()
}

/// Calls `calamine::Range::get_size`: the number of rows and of columns of
/// the range. The contract claims that these are the dimensions of
/// `sheet_cells`, which has rows of equal length, and that a range without
/// rows has no columns and the other way round, as `height` and `width` are
/// both 0 exactly when the range holds no cell.
#[verifier::external_body]
pub(crate) fn range_size(range: &calamine::Range<calamine::Data>) -> (r: (usize, usize))
    ensures
        r.0 == sheet_cells(*range).len(),
        forall|i: int| 0 <= i < r.0 ==> #[trigger] sheet_cells(*range)[i].len() == r.1,
        r.0 == 0 <==> r.1 == 0,
{
    range.get_size()
}

/// Indexes the range at the cell `(row, col)`, counted from the range's first
/// cell (`Index<(usize, usize)>`, which panics outside the range, which the
/// `requires` rules out), and writes it with `to_string`; the contract claims
/// that the text is the one that `sheet_cells` holds there.
#[verifier::external_body]
pub(crate) fn range_cell_text(range: &calamine::Range<calamine::Data>, row: usize, col: usize) -> (r: String)
    requires
        row < sheet_cells(*range).len(),
        col < sheet_cells(*range)[row as int].len(),
    ensures
        r@ == sheet_cells(*range)[row as int][col as int],
{
    range[(row, col)].to_string()
}

} // verus!
