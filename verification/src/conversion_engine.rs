//! The converter's bookkeeping: which files are convertible, what a
//! conversion is to produce and where, how the outcome of the external
//! program is read, and how the sheets of a workbook are written as
//! markdown. Running the program and reading the workbook are the caller's.

use vstd::prelude::*;
use crate::clock::local_now_text;
use crate::errors::{ErrorKind, PipelineError};
use crate::paths::{base_name, base_name_of, extension_of, file_name_of, has_parent, parent_of,
    path_has_parent, sibling_of};
use crate::text::{chars_of, string_of, lower_chars, lowered, push_str, same_text, spells, texts};

verus! {

/// Whether a lower-case extension is one that the converter takes.
pub open spec fn is_convertible_extension(ext: Seq<char>) -> bool {
    ext == "doc"@ || ext == "docx"@ || ext == "ppt"@ || ext == "pptx"@ || ext == "xls"@ || ext
        == "xlsx"@ || ext == "odt"@ || ext == "ods"@ || ext == "odp"@
}

/// Whether a lower-case extension is that of a spreadsheet that is written
/// out as markdown.
pub open spec fn is_workbook_extension(ext: Seq<char>) -> bool {
    ext == "xls"@ || ext == "xlsx"@
}

/// Whether the file at `path` is convertible, by its extension, whatever
/// its case.
pub open spec fn convertible(path: Seq<char>) -> bool {
    match extension_of(path) {
        Some(ext) => is_convertible_extension(lowered(ext)),
        None => false,
    }
}

/// Whether the file at `path` is a workbook.
pub open spec fn is_workbook(path: Seq<char>) -> bool {
    match extension_of(path) {
        Some(ext) => is_workbook_extension(lowered(ext)),
        None => false,
    }
}

/// The name of the artifact that converting `path` produces: the stem,
/// `__converted`, and the extension of the target format.
pub open spec fn artifact_name(path: Seq<char>) -> Seq<char> {
    base_name_of(path, "converted"@) + "__converted."@ + (if is_workbook(path) {
        "md"@
    } else {
        "pdf"@
    })
}

/// What converting a file takes.
#[derive(Debug)]
pub enum ConversionPlan {
    /// The file is not convertible: nothing is produced.
    NotConvertible,
    /// A workbook: read its sheets and write them as markdown to
    /// `output_path`.
    Workbook { output_path: String },
    /// A document: run the external program into `output_dir`; it may leave
    /// its result at `produced_path`, which then moves to `output_path`.
    Document { output_path: String, output_dir: String, produced_path: String },
}

/// What the external program did.
#[derive(Debug)]
pub struct ConverterRun {
    /// Whether it exited with success.
    pub succeeded: bool,
    /// What it wrote to its standard output.
    pub stdout: String,
    /// What it wrote to its standard error.
    pub stderr: String,
    /// Whether a file now exists at the plan's `produced_path`.
    pub produced_exists: bool,
    /// Whether a file now exists at the plan's `output_path`.
    pub output_exists: bool,
}

/// What follows a run of the external program.
#[derive(Debug)]
pub enum AfterRun {
    /// The program failed; the conversion fails with this message.
    Failed { message: String },
    /// The result stands under the program's own name: rename it, then look
    /// whether the output exists.
    Rename { from: String, to: String },
    /// Look whether the output exists.
    Check,
}

/// The message of a failed run.
pub open spec fn failure_message(stdout: Seq<char>, stderr: Seq<char>) -> Seq<char> {
    "LibreOffice conversion failed: stdout: "@ + stdout + ", stderr: "@ + stderr
}

/// One sheet of a workbook: its name, and its rows of cell texts or the
/// error of reading it.
#[derive(Debug)]
pub struct SheetContent {
    pub name: String,
    pub rows: Result<Vec<Vec<String>>, String>,
}

/// The cell texts of rows.
pub open spec fn grid(rows: Seq<Vec<String>>) -> Seq<Seq<Seq<char>>> {
    rows.map_values(|row: Vec<String>| texts(row@))
}

/// The width of the widest of the first `count` rows.
pub open spec fn max_width(rows: Seq<Seq<Seq<char>>>, count: nat) -> nat
    decreases count,
{
    if count == 0 {
        0
    } else {
        let before = max_width(rows, (count - 1) as nat);
        if rows[count - 1].len() > before {
            rows[count - 1].len()
        } else {
            before
        }
    }
}

/// The first `count` characters of a cell with every `|` escaped by a
/// backslash.
pub open spec fn escaped(cell: Seq<char>, count: nat) -> Seq<char>
    decreases count,
{
    if count == 0 {
        Seq::empty()
    } else if cell[count - 1] == '|' {
        escaped(cell, (count - 1) as nat) + seq!['\\', '|']
    } else {
        escaped(cell, (count - 1) as nat).push(cell[count - 1])
    }
}

/// The cell at column `column` as it is written: escaped, and empty where
/// the row is too short.
pub open spec fn written_cell(row: Seq<Seq<char>>, column: int) -> Seq<char> {
    if 0 <= column < row.len() {
        escaped(row[column], row[column].len())
    } else {
        Seq::empty()
    }
}

/// The first `count` cells of a row as written, ` | ` between them.
pub open spec fn written_cells(row: Seq<Seq<char>>, count: nat) -> Seq<char>
    decreases count,
{
    if count == 0 {
        Seq::empty()
    } else if count == 1 {
        written_cell(row, 0)
    } else {
        written_cells(row, (count - 1) as nat) + " | "@ + written_cell(row, count - 1)
    }
}

/// A table line for a row, padded or cut to `width` columns.
pub open spec fn row_line(row: Seq<Seq<char>>, width: nat) -> Seq<char> {
    "| "@ + written_cells(row, width) + " |"@
}

/// `count` times `---|`.
pub open spec fn dashes(count: nat) -> Seq<char>
    decreases count,
{
    if count == 0 {
        Seq::empty()
    } else {
        dashes((count - 1) as nat) + "---|"@
    }
}

/// The line that separates the head of a table from its body.
pub open spec fn separator_line(width: nat) -> Seq<char> {
    "|"@ + dashes(width) + "|"@
}

/// The table lines for the rows from `from` up to `to`.
pub open spec fn body_lines(rows: Seq<Seq<Seq<char>>>, width: nat, from: int, to: int) -> Seq<
    Seq<char>,
>
    decreases to - from,
{
    if to <= from {
        Seq::empty()
    } else {
        body_lines(rows, width, from, to - 1).push(row_line(rows[to - 1], width))
    }
}

/// The markdown lines for one sheet: a heading and an empty line; then
/// either the note that the sheet is empty, or a table whose head is the
/// first row, every row padded to the widest; then an empty line. Where the
/// first row is empty it heads the table and is repeated as its first body
/// line.
pub open spec fn sheet_lines(name: Seq<char>, rows: Seq<Seq<Seq<char>>>) -> Seq<Seq<char>> {
    let width = max_width(rows, rows.len());
    let head = seq!["## Sheet: "@ + name, Seq::empty()];
    if width == 0 {
        head + seq!["*Sheet is empty*"@, Seq::empty()]
    } else {
        let start: int = if rows[0].len() > 0 {
            1
        } else {
            0
        };
        head + seq![row_line(rows[0], width), separator_line(width)] + body_lines(
            rows,
            width,
            start,
            rows.len() as int,
        ) + seq![Seq::empty()]
    }
}

/// The markdown lines for a sheet that could not be read.
pub open spec fn failed_sheet_lines(name: Seq<char>, error: Seq<char>) -> Seq<Seq<char>> {
    seq![
        "## Sheet: "@ + name + " (Error)"@,
        Seq::empty(),
        "*Error processing sheet: "@ + error + "*"@,
        Seq::empty(),
    ]
}

/// The markdown lines that one sheet of a workbook contributes. The sheet
/// called `Conversion Notice` contributes none.
pub open spec fn content_lines(sheet: SheetContent) -> Seq<Seq<char>> {
    if sheet.name@ == "Conversion Notice"@ {
        Seq::empty()
    } else {
        match sheet.rows {
            Ok(rows) => sheet_lines(sheet.name@, grid(rows@)),
            Err(error) => failed_sheet_lines(sheet.name@, error@),
        }
    }
}

/// The markdown lines of the first `count` sheets.
pub open spec fn sheets_lines(sheets: Seq<SheetContent>, count: nat) -> Seq<Seq<char>>
    decreases count,
{
    if count == 0 {
        Seq::empty()
    } else {
        sheets_lines(sheets, (count - 1) as nat) + content_lines(sheets[count - 1])
    }
}

/// The markdown lines of a whole workbook.
pub open spec fn workbook_lines(file_name: Seq<char>, converted_on: Seq<char>, sheets: Seq<SheetContent>) -> Seq<
    Seq<char>,
> {
    seq![
        "# Excel File: "@ + file_name,
        Seq::empty(),
        "Converted on: "@ + converted_on,
        Seq::empty(),
    ] + sheets_lines(sheets, sheets.len()) + (if sheets.len() == 0 {
        seq!["*Workbook contains no sheets*"@]
    } else {
        Seq::empty()
    })
}

/// The name a workbook is shown under: its file name, `Unknown` where its
/// path has none.
pub open spec fn shown_name(file_path: Seq<char>) -> Seq<char> {
    if file_name_of(file_path).len() == 0 {
        "Unknown"@
    } else {
        file_name_of(file_path)
    }
}

/// The markdown text of a workbook: its lines, joined by line feeds.
pub open spec fn workbook_text(file_path: Seq<char>, converted_on: Seq<char>, sheets: Seq<SheetContent>) -> Seq<
    char,
> {
    joined_lines(
        workbook_lines(shown_name(file_path), converted_on, sheets),
        workbook_lines(shown_name(file_path), converted_on, sheets).len(),
    )
}

/// The first `count` lines, a line feed between them.
pub open spec fn joined_lines(lines: Seq<Seq<char>>, count: nat) -> Seq<char>
    decreases count,
{
    if count == 0 {
        Seq::empty()
    } else if count == 1 {
        lines[0]
    } else {
        joined_lines(lines, (count - 1) as nat) + seq!['\n'] + lines[count - 1]
    }
}

/// The text of a file of lines.
pub fn join_lines(lines: &Vec<String>) -> (r: String)
    ensures
        r@ == joined_lines(texts(lines@), lines@.len()),
{
    let mut v: Vec<char> = Vec::new();
    let mut i: usize = 0;
    assert(v@ =~= Seq::<char>::empty());
    while i < lines.len()
        invariant
            i <= lines.len(),
            v@ == joined_lines(texts(lines@), i as nat),
        decreases lines.len() - i,
    {
        if i > 0 {
            v.push('\n');
        }
        assert(texts(lines@)[i as int] == lines@[i as int]@);
        push_str(&mut v, lines[i].as_str());
        assert(v@ =~= joined_lines(texts(lines@), (i + 1) as nat));
        i += 1;
    }
    string_of(&v)
}

/// A line made of the characters `v`, appended to `out`.
fn push_line(out: &mut Vec<String>, v: &Vec<char>)
    ensures
        texts(final(out)@) == texts(old(out)@).push(v@),
        final(out)@.len() == old(out)@.len() + 1,
{
    out.push(string_of(v));
    assert(texts(out@) =~= texts(old(out)@).push(v@));
}

/// An empty line, appended to `out`.
fn push_empty_line(out: &mut Vec<String>)
    ensures
        texts(final(out)@) == texts(old(out)@).push(Seq::<char>::empty()),
{
    let v: Vec<char> = Vec::new();
    assert(v@ =~= Seq::<char>::empty());
    push_line(out, &v);
}

/// Appends the escaped text of a cell to `dst`.
fn push_escaped(dst: &mut Vec<char>, cell: &str)
    ensures
        final(dst)@ == old(dst)@ + escaped(cell@, cell@.len()),
{
    let c = chars_of(cell);
    let mut i: usize = 0;
    assert(dst@ =~= old(dst)@ + escaped(c@, 0));
    while i < c.len()
        invariant
            i <= c.len(),
            dst@ == old(dst)@ + escaped(c@, i as nat),
        decreases c.len() - i,
    {
        if c[i] == '|' {
            dst.push('\\');
            dst.push('|');
        } else {
            dst.push(c[i]);
        }
        assert(dst@ =~= old(dst)@ + escaped(c@, (i + 1) as nat));
        i += 1;
    }
}

/// The table line for `row`, padded or cut to `width` columns.
fn table_line(row: &Vec<String>, width: usize) -> (r: Vec<char>)
    ensures
        r@ == row_line(texts(row@), width as nat),
{
    let mut v: Vec<char> = Vec::new();
    push_str(&mut v, "| ");
    let ghost cells = texts(row@);
    let mut i: usize = 0;
    assert(v@ =~= "| "@ + written_cells(cells, 0));
    while i < width
        invariant
            i <= width,
            cells == texts(row@),
            v@ == "| "@ + written_cells(cells, i as nat),
        decreases width - i,
    {
        if i > 0 {
            push_str(&mut v, " | ");
        }
        if i < row.len() {
            assert(cells[i as int] == row@[i as int]@);
            push_escaped(&mut v, row[i].as_str());
        }
        assert(v@ =~= "| "@ + written_cells(cells, (i + 1) as nat));
        i += 1;
    }
    push_str(&mut v, " |");
    v
}

/// The line between the head and the body of a table of `width` columns.
fn separator(width: usize) -> (r: Vec<char>)
    ensures
        r@ == separator_line(width as nat),
{
    let mut v: Vec<char> = Vec::new();
    push_str(&mut v, "|");
    let mut i: usize = 0;
    assert(v@ =~= "|"@ + dashes(0));
    while i < width
        invariant
            i <= width,
            v@ == "|"@ + dashes(i as nat),
        decreases width - i,
    {
        push_str(&mut v, "---|");
        assert(v@ =~= "|"@ + dashes((i + 1) as nat));
        i += 1;
    }
    push_str(&mut v, "|");
    v
}

/// The width of the widest row.
fn widest(rows: &Vec<Vec<String>>) -> (r: usize)
    ensures
        r == max_width(grid(rows@), rows@.len()),
{
    let mut width: usize = 0;
    let mut i: usize = 0;
    while i < rows.len()
        invariant
            i <= rows.len(),
            width == max_width(grid(rows@), i as nat),
        decreases rows.len() - i,
    {
        assert(grid(rows@)[i as int] == texts(rows@[i as int]@));
        if rows[i].len() > width {
            width = rows[i].len();
        }
        i += 1;
    }
    width
}

/// Converts documents, and knows what each conversion produces.
pub struct ConversionEngine {}

impl ConversionEngine {
    /// A conversion engine.
    pub fn new() -> (r: Self) {
        ConversionEngine {  }
    }

    /// Whether the file at `file_path` is convertible: a word processor
    /// document, a presentation or a spreadsheet, by its extension.
    pub fn is_convertible_file(&self, file_path: &str) -> (r: bool)
        ensures
            r == convertible(file_path@),
    {
        match crate::paths::extension(file_path) {
            Some(ext) => {
                let e = chars_of(ext.as_str());
                let l = lower_chars(&e);
                spells(&l, "doc") || spells(&l, "docx") || spells(&l, "ppt") || spells(&l, "pptx")
                    || spells(&l, "xls") || spells(&l, "xlsx") || spells(&l, "odt") || spells(
                    &l,
                    "ods",
                ) || spells(&l, "odp")
            },
            None => false,
        }
    }

    /// Whether the file at `file_path` is a workbook, by its extension.
    pub fn is_workbook_file(&self, file_path: &str) -> (r: bool)
        ensures
            r == is_workbook(file_path@),
    {
        match crate::paths::extension(file_path) {
            Some(ext) => {
                let e = chars_of(ext.as_str());
                let l = lower_chars(&e);
                spells(&l, "xls") || spells(&l, "xlsx")
            },
            None => false,
        }
    }

    /// What converting the file at `file_path` takes. A workbook becomes
    /// markdown, every other convertible file a PDF; the artifact stands
    /// beside the file, named by its stem and `__converted`. Fails where
    /// the path of a convertible file has no parent.
    pub fn convert_file(&self, file_path: &str) -> (r: Result<ConversionPlan, PipelineError>)
        ensures
            match r {
                Ok(ConversionPlan::NotConvertible) => !convertible(file_path@),
                Ok(ConversionPlan::Workbook { output_path }) => convertible(file_path@)
                    && has_parent(file_path@) && is_workbook(file_path@) && output_path@
                    == sibling_of(file_path@, artifact_name(file_path@)),
                Ok(ConversionPlan::Document { output_path, output_dir, produced_path }) => convertible(
                    file_path@,
                ) && has_parent(file_path@) && !is_workbook(file_path@) && output_path@
                    == sibling_of(file_path@, artifact_name(file_path@)) && output_dir@
                    == parent_of(file_path@) && produced_path@ == sibling_of(
                    file_path@,
                    base_name_of(file_path@, "converted"@) + ".pdf"@,
                ),
                Err(e) => convertible(file_path@) && !has_parent(file_path@) && e.kind
                    == ErrorKind::ConversionFailure && e.message@
                    == "File has no parent directory"@,
            },
    {
        if !self.is_convertible_file(file_path) {
            return Ok(ConversionPlan::NotConvertible);
        }
        if !path_has_parent(file_path) {
            return Err(
                PipelineError::new(
                    ErrorKind::ConversionFailure,
                    "File has no parent directory".to_owned(),
                ),
            );
        }
        let workbook = self.is_workbook_file(file_path);
        let stem = base_name(file_path, "converted");
        let mut name = chars_of(stem.as_str());
        push_str(&mut name, "__converted.");
        if workbook {
            push_str(&mut name, "md");
        } else {
            push_str(&mut name, "pdf");
        }
        let artifact = string_of(&name);
        let output_path = crate::paths::sibling(file_path, artifact.as_str());
        if workbook {
            Ok(ConversionPlan::Workbook { output_path })
        } else {
            let mut own = chars_of(stem.as_str());
            push_str(&mut own, ".pdf");
            let own_name = string_of(&own);
            let produced_path = crate::paths::sibling(file_path, own_name.as_str());
            let output_dir = crate::paths::parent(file_path);
            Ok(ConversionPlan::Document { output_path, output_dir, produced_path })
        }
    }

    /// Reads the outcome of the external program for a document whose
    /// artifact is expected at `output_path` and may stand at
    /// `produced_path`. A run that failed fails the conversion, with what
    /// the program wrote. A result under the program's own name, with no
    /// output yet, is renamed.
    pub fn after_run(&self, output_path: &str, produced_path: &str, run: &ConverterRun) -> (r:
        AfterRun)
        ensures
            match r {
                AfterRun::Failed { message } => !run.succeeded && message@ == failure_message(
                    run.stdout@,
                    run.stderr@,
                ),
                AfterRun::Rename { from, to } => run.succeeded && run.produced_exists
                    && !run.output_exists && from@ == produced_path@ && to@ == output_path@,
                AfterRun::Check => run.succeeded && !(run.produced_exists && !run.output_exists),
            },
    {
        if !run.succeeded {
            let mut m = chars_of("LibreOffice conversion failed: stdout: ");
            push_str(&mut m, run.stdout.as_str());
            push_str(&mut m, ", stderr: ");
            push_str(&mut m, run.stderr.as_str());
            AfterRun::Failed { message: string_of(&m) }
        } else if run.produced_exists && !run.output_exists {
            AfterRun::Rename { from: produced_path.to_owned(), to: output_path.to_owned() }
        } else {
            AfterRun::Check
        }
    }

    /// Concludes a conversion: it produced `output_path` if that file now
    /// exists, and failed otherwise.
    pub fn conclude(&self, output_path: &str, output_exists: bool) -> (r: Result<String, PipelineError>)
        ensures
            match r {
                Ok(path) => output_exists && path@ == output_path@,
                Err(e) => !output_exists && e.kind == ErrorKind::ConversionFailure && e.message@
                    == "Conversion completed but output file not found"@,
            },
    {
        if output_exists {
            Ok(output_path.to_owned())
        } else {
            Err(
                PipelineError::new(
                    ErrorKind::ConversionFailure,
                    "Conversion completed but output file not found".to_owned(),
                ),
            )
        }
    }

    /// Appends the markdown of one sheet to `markdown_content`: its
    /// heading, then its table or the note that it is empty.
    pub fn sheet_data_to_markdown(
        &self,
        sheet_name: &str,
        sheet_data: &Vec<Vec<String>>,
        markdown_content: &mut Vec<String>,
    )
        ensures
            texts(final(markdown_content)@) == texts(old(markdown_content)@) + sheet_lines(
                sheet_name@,
                grid(sheet_data@),
            ),
    {
        let ghost before = texts(markdown_content@);
        let ghost rows = grid(sheet_data@);
        let mut heading = chars_of("## Sheet: ");
        push_str(&mut heading, sheet_name);
        push_line(markdown_content, &heading);
        push_empty_line(markdown_content);
        let width = widest(sheet_data);
        if width == 0 {
            let note = chars_of("*Sheet is empty*");
            push_line(markdown_content, &note);
            push_empty_line(markdown_content);
            assert(texts(markdown_content@) =~= before + sheet_lines(sheet_name@, rows));
            return ;
        }
        assert(sheet_data.len() > 0);
        assert(rows[0] == texts(sheet_data@[0]@));
        let head = table_line(&sheet_data[0], width);
        push_line(markdown_content, &head);
        let rule = separator(width);
        push_line(markdown_content, &rule);
        let start: usize = if sheet_data[0].len() > 0 {
            1
        } else {
            0
        };
        let ghost top = texts(markdown_content@);
        assert(top =~= before + seq!["## Sheet: "@ + sheet_name@, Seq::empty()] + seq![
            row_line(rows[0], width as nat),
            separator_line(width as nat),
        ]);
        let mut i: usize = start;
        assert(top =~= top + body_lines(rows, width as nat, start as int, start as int));
        while i < sheet_data.len()
            invariant
                start <= i <= sheet_data.len(),
                rows == grid(sheet_data@),
                texts(markdown_content@) == top + body_lines(
                    rows,
                    width as nat,
                    start as int,
                    i as int,
                ),
            decreases sheet_data.len() - i,
        {
            assert(rows[i as int] == texts(sheet_data@[i as int]@));
            let line = table_line(&sheet_data[i], width);
            push_line(markdown_content, &line);
            assert(texts(markdown_content@) =~= top + body_lines(
                rows,
                width as nat,
                start as int,
                i + 1,
            ));
            i += 1;
        }
        push_empty_line(markdown_content);
        assert(texts(markdown_content@) =~= before + sheet_lines(sheet_name@, rows));
    }

    /// Appends what one sheet contributes to the markdown of its workbook.
    fn sheet_to_markdown(&self, sheet: &SheetContent, markdown_content: &mut Vec<String>)
        ensures
            texts(final(markdown_content)@) == texts(old(markdown_content)@) + content_lines(*sheet),
    {
        let ghost before = texts(markdown_content@);
        if same_text(sheet.name.as_str(), "Conversion Notice") {
            assert(before =~= before + content_lines(*sheet));
            return ;
        }
        match &sheet.rows {
            Ok(rows) => {
                self.sheet_data_to_markdown(sheet.name.as_str(), rows, markdown_content);
            },
            Err(error) => {
                let mut heading = chars_of("## Sheet: ");
                push_str(&mut heading, sheet.name.as_str());
                push_str(&mut heading, " (Error)");
                push_line(markdown_content, &heading);
                push_empty_line(markdown_content);
                let mut note = chars_of("*Error processing sheet: ");
                push_str(&mut note, error.as_str());
                push_str(&mut note, "*");
                push_line(markdown_content, &note);
                push_empty_line(markdown_content);
                assert(texts(markdown_content@) =~= before + content_lines(*sheet));
            },
        }
    }

    /// The markdown of a workbook, for a given text of the moment of
    /// conversion: a title with the file's name, the moment, then every
    /// sheet in order, the lines joined by line feeds.
    pub fn workbook_markdown(&self, file_path: &str, converted_on: &str, sheets: &Vec<SheetContent>) -> (r:
        String)
        ensures
            r@ == workbook_text(file_path@, converted_on@, sheets@),
    {
        let own = crate::paths::file_name(file_path);
        let name: String = if own.as_str().unicode_len() == 0 {
            "Unknown".to_owned()
        } else {
            own
        };
        let mut lines: Vec<String> = Vec::new();
        let mut title = chars_of("# Excel File: ");
        push_str(&mut title, name.as_str());
        push_line(&mut lines, &title);
        push_empty_line(&mut lines);
        let mut moment = chars_of("Converted on: ");
        push_str(&mut moment, converted_on);
        push_line(&mut lines, &moment);
        push_empty_line(&mut lines);
        let ghost top = texts(lines@);
        assert(top =~= seq![
            "# Excel File: "@ + name@,
            Seq::empty(),
            "Converted on: "@ + converted_on@,
            Seq::empty(),
        ]);
        let mut i: usize = 0;
        assert(top =~= top + sheets_lines(sheets@, 0));
        while i < sheets.len()
            invariant
                i <= sheets.len(),
                texts(lines@) == top + sheets_lines(sheets@, i as nat),
            decreases sheets.len() - i,
        {
            self.sheet_to_markdown(&sheets[i], &mut lines);
            assert(texts(lines@) =~= top + sheets_lines(sheets@, (i + 1) as nat));
            i += 1;
        }
        if sheets.len() == 0 {
            let note = chars_of("*Workbook contains no sheets*");
            push_line(&mut lines, &note);
        }
        assert(texts(lines@) =~= workbook_lines(name@, converted_on@, sheets@));
        join_lines(&lines)
    }

    /// The markdown of a workbook as converted at this moment.
    pub fn convert_excel_to_markdown(&self, file_path: &str, sheets: &Vec<SheetContent>) -> (r: String)
        ensures
            exists|converted_on: Seq<char>| r@ == #[trigger] workbook_text(file_path@, converted_on, sheets@),
    {
        let moment = local_now_text();
        self.workbook_markdown(file_path, moment.as_str(), sheets)
    }
}

} // verus!
