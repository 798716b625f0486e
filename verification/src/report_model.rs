//! The catalogue record: one per discovered file, carried through the whole
//! pipeline, with the human-readable size that is shown for it.

use vstd::prelude::*;
use crate::paths::extension_of;
use crate::text::{chars_of, string_of, lower_chars, lowered, spells, decimal, digit, push_decimal};

verus! {

/// Where a catalogue record stands in the pipeline.
#[derive(Debug, Clone, Copy, PartialEq, Eq, Structural)]
pub enum ProcessingStatus {
    /// Catalogued, not yet processed.
    Pending,
    /// Converted, or consumable as it is.
    Converted,
    /// Neither consumable nor convertible.
    Skipped,
    /// Processing failed; the reason says why.
    Failed,
}

/// One discovered file and the outcome of processing it.
#[derive(Debug, Clone)]
pub struct ReportModel {
    /// Name of the file as catalogued. Never changes.
    pub original_file_name: String,
    /// Path of the file below the staging root, as catalogued. Never changes.
    pub original_relative_path: String,
    /// Name of the file that now stands for the record.
    pub file_name: String,
    /// Path below the staging root of the file that now stands for the record.
    pub relative_path: String,
    /// Content hash, once computed.
    pub sha512: Option<String>,
    /// Outcome of processing.
    pub status: ProcessingStatus,
    /// Why the record was skipped or failed.
    pub skip_reason: Option<String>,
    /// The file's extension.
    pub file_type: String,
    /// Size in bytes.
    pub file_size_bytes: u64,
    /// Size as shown to people.
    pub file_size_human: String,
    /// Time of last modification.
    pub last_modified: String,
    /// Time of creation.
    pub created_time: String,
    /// Name of the artifact that conversion produced, if any.
    pub converted_file_name: Option<String>,
}

/// The mathematical content of a record.
pub struct ReportModelView {
    pub original_file_name: Seq<char>,
    pub original_relative_path: Seq<char>,
    pub file_name: Seq<char>,
    pub relative_path: Seq<char>,
    pub sha512: Option<Seq<char>>,
    pub status: ProcessingStatus,
    pub skip_reason: Option<Seq<char>>,
    pub file_type: Seq<char>,
    pub file_size_bytes: u64,
    pub file_size_human: Seq<char>,
    pub last_modified: Seq<char>,
    pub created_time: Seq<char>,
    pub converted_file_name: Option<Seq<char>>,
}

/// The characters of an optional string.
pub open spec fn text_of(o: Option<String>) -> Option<Seq<char>> {
    match o {
        Some(s) => Some(s@),
        None => None,
    }
}

impl View for ReportModel {
    type V = ReportModelView;

    open spec fn view(&self) -> ReportModelView {
        ReportModelView {
            original_file_name: self.original_file_name@,
            original_relative_path: self.original_relative_path@,
            file_name: self.file_name@,
            relative_path: self.relative_path@,
            sha512: text_of(self.sha512),
            status: self.status,
            skip_reason: text_of(self.skip_reason),
            file_type: self.file_type@,
            file_size_bytes: self.file_size_bytes,
            file_size_human: self.file_size_human@,
            last_modified: self.last_modified@,
            created_time: self.created_time@,
            converted_file_name: text_of(self.converted_file_name),
        }
    }
}

/// The index of the unit a size is shown in: 0 for bytes, up to 4 for TB.
pub open spec fn size_unit(bytes: nat) -> nat {
    if bytes < 1024 {
        0
    } else if bytes < 1048576 {
        1
    } else if bytes < 1073741824 {
        2
    } else if bytes < 1099511627776 {
        3
    } else {
        4
    }
}

/// The number of bytes in one unit: 1024 to the power of the unit's index.
pub open spec fn unit_size(unit: nat) -> nat {
    if unit == 0 {
        1
    } else if unit == 1 {
        1024
    } else if unit == 2 {
        1048576
    } else if unit == 3 {
        1073741824
    } else {
        1099511627776
    }
}

/// The name of a unit.
pub open spec fn unit_name(unit: nat) -> Seq<char> {
    if unit == 0 {
        seq!['B']
    } else if unit == 1 {
        seq!['K', 'B']
    } else if unit == 2 {
        seq!['M', 'B']
    } else if unit == 3 {
        seq!['G', 'B']
    } else {
        seq!['T', 'B']
    }
}

/// `num / den` rounded to the nearest whole number, a tie going to the even
/// neighbour.
pub open spec fn rounded_half_even(num: nat, den: nat) -> nat {
    let q = num / den;
    let r = num % den;
    if 2 * r > den || (2 * r == den && q % 2 == 1) {
        q + 1
    } else {
        q
    }
}

/// The step between the sizes that 53 significant bits can tell apart at the
/// magnitude of `bytes`: 1 below 2^53, doubling with each further bit.
pub open spec fn granule(bytes: nat) -> nat {
    if bytes < 0x20_0000_0000_0000 {
        1
    } else if bytes < 0x40_0000_0000_0000 {
        2
    } else if bytes < 0x80_0000_0000_0000 {
        4
    } else if bytes < 0x100_0000_0000_0000 {
        8
    } else if bytes < 0x200_0000_0000_0000 {
        16
    } else if bytes < 0x400_0000_0000_0000 {
        32
    } else if bytes < 0x800_0000_0000_0000 {
        64
    } else if bytes < 0x1000_0000_0000_0000 {
        128
    } else if bytes < 0x2000_0000_0000_0000 {
        256
    } else if bytes < 0x4000_0000_0000_0000 {
        512
    } else if bytes < 0x8000_0000_0000_0000 {
        1024
    } else {
        2048
    }
}

/// A size as it is measured: held to 53 significant bits, the nearest such
/// value being taken and a tie going to the even one. Sizes below 2^53 are
/// measured exactly.
pub open spec fn measured(bytes: nat) -> nat {
    rounded_half_even(bytes, granule(bytes)) * granule(bytes)
}

/// A size in hundredths of its unit, rounded to the nearest hundredth, a tie
/// going to the even one.
pub open spec fn size_hundredths(bytes: nat) -> nat {
    rounded_half_even(measured(bytes) * 100, unit_size(size_unit(bytes)))
}

/// The two decimal digits of a number below one hundred.
pub open spec fn two_digits(n: nat) -> Seq<char> {
    seq![digit(n / 10), digit(n % 10)]
}

/// A size as shown to people: a whole number of bytes below 1024, else the
/// size in the largest unit up to TB that it reaches, with two decimals.
pub open spec fn human_size(bytes: nat) -> Seq<char> {
    if size_unit(bytes) == 0 {
        decimal(bytes) + seq![' ', 'B']
    } else {
        decimal(size_hundredths(bytes) / 100) + seq!['.'] + two_digits(size_hundredths(bytes) % 100)
            + seq![' '] + unit_name(size_unit(bytes))
    }
}

/// Whether a lower-case extension is one that can be consumed as it is.
pub open spec fn is_readable_extension(ext: Seq<char>) -> bool {
    ext == "txt"@ || ext == "md"@ || ext == "pdf"@ || ext == "csv"@ || ext == "json"@ || ext
        == "xml"@ || ext == "html"@ || ext == "htm"@ || ext == "log"@ || ext == "rtf"@
}

/// Whether the file at `path` can be consumed as it is: its extension,
/// whatever its case, is one of the recognised set.
pub open spec fn llm_readable(path: Seq<char>) -> bool {
    match extension_of(path) {
        Some(ext) => is_readable_extension(lowered(ext)),
        None => false,
    }
}

/// The record of a file that has just been catalogued.
pub open spec fn fresh_record(
    file_name: Seq<char>,
    relative_path: Seq<char>,
    file_type: Seq<char>,
    file_size_bytes: u64,
    last_modified: Seq<char>,
    created_time: Seq<char>,
) -> ReportModelView {
    ReportModelView {
        original_file_name: file_name,
        original_relative_path: relative_path,
        file_name,
        relative_path,
        sha512: None,
        status: ProcessingStatus::Pending,
        skip_reason: None,
        file_type,
        file_size_bytes,
        file_size_human: human_size(file_size_bytes as nat),
        last_modified,
        created_time,
        converted_file_name: None,
    }
}

/// `num / den`, rounded to the nearest whole number with ties to even.
fn round_half_even(num: u128, den: u128) -> (r: u128)
    requires
        0 < den <= 0x100_0000_0000,
        num <= 0x1_0000_0000_0000_0000 * 100,
    ensures
        r == rounded_half_even(num as nat, den as nat),
{
    let q: u128 = num / den;
    let rem: u128 = num % den;
    if 2 * rem > den || (2 * rem == den && q % 2 == 1) {
        q + 1
    } else {
        q
    }
}

/// The step between measurable sizes at the magnitude of `bytes`.
fn granule_of(bytes: u64) -> (r: u64)
    ensures
        r == granule(bytes as nat),
        1 <= r <= 2048,
        bytes / r < 0x20_0000_0000_0000,
{
    if bytes < 0x20_0000_0000_0000 {
        1
    } else if bytes < 0x40_0000_0000_0000 {
        2
    } else if bytes < 0x80_0000_0000_0000 {
        4
    } else if bytes < 0x100_0000_0000_0000 {
        8
    } else if bytes < 0x200_0000_0000_0000 {
        16
    } else if bytes < 0x400_0000_0000_0000 {
        32
    } else if bytes < 0x800_0000_0000_0000 {
        64
    } else if bytes < 0x1000_0000_0000_0000 {
        128
    } else if bytes < 0x2000_0000_0000_0000 {
        256
    } else if bytes < 0x4000_0000_0000_0000 {
        512
    } else if bytes < 0x8000_0000_0000_0000 {
        1024
    } else {
        2048
    }
}

/// Formats a size in bytes for people: `0 B`, `1.50 KB`, `1.00 GB`.
pub fn format_file_size(bytes: u64) -> (r: String)
    ensures
        r@ == human_size(bytes as nat),
{
    let mut out: Vec<char> = Vec::new();
    if bytes < 1024 {
        push_decimal(&mut out, bytes as u128);
        out.push(' ');
        out.push('B');
        assert(out@ =~= human_size(bytes as nat));
        return string_of(&out);
    }
    let g: u64 = granule_of(bytes);
    let steps: u128 = round_half_even(bytes as u128, g as u128);
    assert(steps * g <= 0x1_0000_0000_0000_0000) by (nonlinear_arith)
        requires
            steps <= 0x20_0000_0000_0000,
            1 <= g <= 2048,
    ;
    let held: u128 = steps * (g as u128);
    let per_unit: u128 = if bytes < 1048576 {
        1024
    } else if bytes < 1073741824 {
        1048576
    } else if bytes < 1099511627776 {
        1073741824
    } else {
        1099511627776
    };
    let hundredths: u128 = round_half_even(held * 100, per_unit);
    assert(hundredths == size_hundredths(bytes as nat));
    assert(hundredths <= 0x1_0000_0000_0000_0000 * 100 / 1024 + 1);
    let fraction: u8 = (hundredths % 100) as u8;
    push_decimal(&mut out, hundredths / 100);
    out.push('.');
    out.push((48u8 + fraction / 10) as char);
    out.push((48u8 + fraction % 10) as char);
    out.push(' ');
    if bytes < 1048576 {
        out.push('K');
    } else if bytes < 1073741824 {
        out.push('M');
    } else if bytes < 1099511627776 {
        out.push('G');
    } else {
        out.push('T');
    }
    out.push('B');
    assert(out@ =~= human_size(bytes as nat));
    string_of(&out)
}

impl ReportModel {
    /// The record of a file as it is catalogued: pending, without hash or
    /// reason, its working identity equal to its original one.
    pub fn new(
        file_name: String,
        relative_path: String,
        file_type: String,
        file_size_bytes: u64,
        last_modified: String,
        created_time: String,
    ) -> (r: Self)
        ensures
            r@ == fresh_record(
                file_name@,
                relative_path@,
                file_type@,
                file_size_bytes,
                last_modified@,
                created_time@,
            ),
    {
        let file_size_human = format_file_size(file_size_bytes);
        ReportModel {
            original_file_name: file_name.clone(),
            original_relative_path: relative_path.clone(),
            file_name,
            relative_path,
            sha512: None,
            status: ProcessingStatus::Pending,
            skip_reason: None,
            file_type,
            file_size_bytes,
            file_size_human,
            last_modified,
            created_time,
            converted_file_name: None,
        }
    }

    /// Whether the file at `file_path` can be consumed as it is: plain text,
    /// markdown, pdf, csv, json, xml, html, log or rtf, by its extension.
    pub fn is_llm_readable(file_path: &str) -> (r: bool)
        ensures
            r == llm_readable(file_path@),
    {
        match crate::paths::extension(file_path) {
            Some(ext) => {
                let e = chars_of(ext.as_str());
                let l = lower_chars(&e);
                spells(&l, "txt") || spells(&l, "md") || spells(&l, "pdf") || spells(&l, "csv")
                    || spells(&l, "json") || spells(&l, "xml") || spells(&l, "html") || spells(
                    &l,
                    "htm",
                ) || spells(&l, "log") || spells(&l, "rtf")
            },
            None => false,
        }
    }

    /// The processed flag as the report shows it: `Yes` for a converted
    /// record, `No` for every other.
    pub fn processed(&self) -> (r: String)
        ensures
            r@ == (if self.status == ProcessingStatus::Converted {
                "Yes"@
            } else {
                "No"@
            }),
    {
        if self.status == ProcessingStatus::Converted {
            "Yes".to_owned()
        } else {
            "No".to_owned()
        }
    }

    /// A copy of the record.
    pub fn duplicate(&self) -> (r: Self)
        ensures
            r@ == self@,
    {
        ReportModel {
            original_file_name: self.original_file_name.clone(),
            original_relative_path: self.original_relative_path.clone(),
            file_name: self.file_name.clone(),
            relative_path: self.relative_path.clone(),
            sha512: copy_text(&self.sha512),
            status: self.status,
            skip_reason: copy_text(&self.skip_reason),
            file_type: self.file_type.clone(),
            file_size_bytes: self.file_size_bytes,
            file_size_human: self.file_size_human.clone(),
            last_modified: self.last_modified.clone(),
            created_time: self.created_time.clone(),
            converted_file_name: copy_text(&self.converted_file_name),
        }
    }
}

/// A copy of an optional string.
pub fn copy_text(o: &Option<String>) -> (r: Option<String>)
    ensures
        text_of(r) == text_of(*o),
{
    match o {
        Some(s) => Some(s.clone()),
        None => None,
    }
}

} // verus!
