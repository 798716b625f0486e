//! The report: one row for every catalogue record, under fixed headings.
//! The table is built here; writing it out as a spreadsheet is the caller's.

use vstd::prelude::*;
use crate::text::texts;
use crate::report_model::{ReportModel, ReportModelView, ProcessingStatus};

verus! {

/// One cell of the report.
#[derive(Debug)]
pub enum ReportCell {
    Text(String),
    Number(u64),
}

/// The mathematical content of a cell.
pub enum ReportCellView {
    Text(Seq<char>),
    Number(u64),
}

impl View for ReportCell {
    type V = ReportCellView;

    open spec fn view(&self) -> ReportCellView {
        match *self {
            ReportCell::Text(text) => ReportCellView::Text(text@),
            ReportCell::Number(number) => ReportCellView::Number(number),
        }
    }
}

/// The report as a table: headings, rows, and the width of each column in
/// characters.
#[derive(Debug)]
pub struct ReportTable {
    pub headers: Vec<String>,
    pub rows: Vec<Vec<ReportCell>>,
    pub column_widths: Vec<u16>,
}

/// The headings of the report, in column order.
pub open spec fn report_headers() -> Seq<Seq<char>> {
    seq![
        "File Name"@,
        "Converted File Name"@,
        "SHA512"@,
        "Processed"@,
        "Skip Reason"@,
        "Relative Path"@,
        "File Type"@,
        "File Size (Bytes)"@,
        "File Size (Human)"@,
        "Last Modified"@,
        "Created Time"@,
    ]
}

/// The widths of the columns, in column order.
pub open spec fn report_widths() -> Seq<u16> {
    seq![30u16, 30u16, 64u16, 15u16, 15u16, 40u16, 15u16, 15u16, 15u16, 15u16, 15u16]
}

/// An optional text as a cell shows it: empty where there is none.
pub open spec fn shown(text: Option<Seq<char>>) -> Seq<char> {
    match text {
        Some(t) => t,
        None => Seq::empty(),
    }
}

/// The processed flag of a record: `Yes` once converted, else `No`.
pub open spec fn processed_flag(status: ProcessingStatus) -> Seq<char> {
    if status == ProcessingStatus::Converted {
        "Yes"@
    } else {
        "No"@
    }
}

/// The row of a record: original name, artifact name, hash, processed
/// flag, reason, original path, type, size in bytes, size for people, and
/// the two times.
pub open spec fn report_row(entry: ReportModelView) -> Seq<ReportCellView> {
    seq![
        ReportCellView::Text(entry.original_file_name),
        ReportCellView::Text(shown(entry.converted_file_name)),
        ReportCellView::Text(shown(entry.sha512)),
        ReportCellView::Text(processed_flag(entry.status)),
        ReportCellView::Text(shown(entry.skip_reason)),
        ReportCellView::Text(entry.original_relative_path),
        ReportCellView::Text(entry.file_type),
        ReportCellView::Number(entry.file_size_bytes),
        ReportCellView::Text(entry.file_size_human),
        ReportCellView::Text(entry.last_modified),
        ReportCellView::Text(entry.created_time),
    ]
}

/// The contents of a row of cells.
pub open spec fn cell_views(row: Seq<ReportCell>) -> Seq<ReportCellView> {
    row.map_values(|c: ReportCell| c@)
}

/// A cell with the text of an optional string.
fn optional_cell(text: &Option<String>) -> (r: ReportCell)
    ensures
        r@ == ReportCellView::Text(shown(crate::report_model::text_of(*text))),
{
    match text {
        Some(t) => ReportCell::Text(t.clone()),
        None => {
            let empty = String::new();
            ReportCell::Text(empty)
        },
    }
}

/// Builds the report.
pub struct ReportWriter {}

impl ReportWriter {
    /// A report writer.
    pub fn new() -> (r: Self) {
        ReportWriter {  }
    }

    /// The row of one record.
    pub fn row_of(entry: &ReportModel) -> (row: Vec<ReportCell>)
        ensures
            cell_views(row@) == report_row(entry@),
    {
        let mut row: Vec<ReportCell> = Vec::new();
        row.push(ReportCell::Text(entry.original_file_name.clone()));
        row.push(optional_cell(&entry.converted_file_name));
        row.push(optional_cell(&entry.sha512));
        row.push(ReportCell::Text(entry.processed()));
        row.push(optional_cell(&entry.skip_reason));
        row.push(ReportCell::Text(entry.original_relative_path.clone()));
        row.push(ReportCell::Text(entry.file_type.clone()));
        row.push(ReportCell::Number(entry.file_size_bytes));
        row.push(ReportCell::Text(entry.file_size_human.clone()));
        row.push(ReportCell::Text(entry.last_modified.clone()));
        row.push(ReportCell::Text(entry.created_time.clone()));
        assert(cell_views(row@) =~= report_row(entry@));
        row
    }

    /// The report of a catalogue: the fixed headings and widths, and one
    /// row for each record, in catalogue order.
    pub fn generate_report(&self, entries: &Vec<ReportModel>) -> (table: ReportTable)
        ensures
            texts(table.headers@) == report_headers(),
            table.column_widths@ == report_widths(),
            table.rows@.len() == entries@.len(),
            forall|i: int|
                0 <= i < entries@.len() ==> cell_views((#[trigger] table.rows@[i])@) == report_row(
                    entries@[i]@,
                ),
    {
        let mut headers: Vec<String> = Vec::new();
        headers.push("File Name".to_owned());
        headers.push("Converted File Name".to_owned());
        headers.push("SHA512".to_owned());
        headers.push("Processed".to_owned());
        headers.push("Skip Reason".to_owned());
        headers.push("Relative Path".to_owned());
        headers.push("File Type".to_owned());
        headers.push("File Size (Bytes)".to_owned());
        headers.push("File Size (Human)".to_owned());
        headers.push("Last Modified".to_owned());
        headers.push("Created Time".to_owned());
        assert(texts(headers@) =~= report_headers());
        let mut column_widths: Vec<u16> = Vec::new();
        column_widths.push(30);
        column_widths.push(30);
        column_widths.push(64);
        column_widths.push(15);
        column_widths.push(15);
        column_widths.push(40);
        column_widths.push(15);
        column_widths.push(15);
        column_widths.push(15);
        column_widths.push(15);
        column_widths.push(15);
        assert(column_widths@ =~= report_widths());
        let mut rows: Vec<Vec<ReportCell>> = Vec::new();
        let mut i: usize = 0;
        while i < entries.len()
            invariant
                i <= entries.len(),
                rows@.len() == i,
                forall|k: int|
                    0 <= k < i ==> cell_views((#[trigger] rows@[k])@) == report_row(entries@[k]@),
            decreases entries.len() - i,
        {
            rows.push(Self::row_of(&entries[i]));
            i += 1;
        }
        ReportTable { headers, rows, column_widths }
    }
}

} // verus!
