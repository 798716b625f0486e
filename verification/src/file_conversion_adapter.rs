//! The entry of a conversion request: what is checked of the input before
//! a run starts, and the shape in which its outcome is handed back.

use vstd::prelude::*;
use crate::text::texts;
use crate::process_controller::ProcessingResult;
use crate::text::{chars_of, string_of, push_str};

verus! {

/// What a conversion request hands back.
#[derive(Debug)]
pub struct FileConversionResult {
    pub status: String,
    pub staging_path: Option<String>,
    pub llm_output_path: Option<String>,
    pub report_path: Option<String>,
}

/// Whether a character is white space.
pub open spec fn is_white_space(c: char) -> bool {
    let n = c as u32;
    (0x09 <= n <= 0x0D) || n == 0x20 || n == 0x85 || n == 0xA0 || n == 0x1680 || (0x2000 <= n
        <= 0x200A) || n == 0x2028 || n == 0x2029 || n == 0x202F || n == 0x205F || n == 0x3000
}

/// Whether a text holds nothing but white space.
pub open spec fn is_blank(text: Seq<char>) -> bool {
    forall|i: int| 0 <= i < text.len() ==> is_white_space(#[trigger] text[i])
}

/// The message for a path that does not exist.
pub open spec fn missing_path_message(path: Seq<char>) -> Seq<char> {
    "Path does not exist: "@ + path
}

/// The first `count` causes of a failure, ` -> ` between them.
pub open spec fn chained(causes: Seq<Seq<char>>, count: nat) -> Seq<char>
    decreases count,
{
    if count == 0 {
        Seq::empty()
    } else if count == 1 {
        causes[0]
    } else {
        chained(causes, (count - 1) as nat) + " -> "@ + causes[count - 1]
    }
}

/// The one message of a failed run: its causes, outermost first, as a chain.
pub open spec fn failure_report(causes: Seq<Seq<char>>) -> Seq<char> {
    "Processing failed: "@ + chained(causes, causes.len())
}

/// A path holds a character that no path to be opened may hold: a NUL, a
/// line feed or a carriage return.
pub open spec fn has_forbidden_character(path: Seq<char>) -> bool {
    exists|i: int| 0 <= i < path.len() && (#[trigger] path[i] == '\0' || path[i] == '\n' || path[i] == '\r')
}

/// Whether `text` holds nothing but white space.
pub fn blank(text: &str) -> (r: bool)
    ensures
        r == is_blank(text@),
{
    let t = chars_of(text);
    let mut i: usize = 0;
    while i < t.len()
        invariant
            i <= t.len(),
            t@ == text@,
            forall|j: int| 0 <= j < i ==> is_white_space(#[trigger] t@[j]),
        decreases t.len() - i,
    {
        let n: u32 = t[i] as u32;
        let white = (0x09 <= n && n <= 0x0D) || n == 0x20 || n == 0x85 || n == 0xA0 || n == 0x1680
            || (0x2000 <= n && n <= 0x200A) || n == 0x2028 || n == 0x2029 || n == 0x202F || n
            == 0x205F || n == 0x3000;
        if !white {
            assert(!is_white_space(text@[i as int]));
            return false;
        }
        i += 1;
    }
    true
}

/// Checks the input of a conversion request before a run starts: the path
/// must not be blank, and it must exist.
pub fn start_file_conversion(input_path: &str, exists: bool) -> (r: Result<(), String>)
    ensures
        match r {
            Ok(_) => !is_blank(input_path@) && exists,
            Err(message) => if is_blank(input_path@) {
                message@ == "Input path must not be empty."@
            } else {
                !exists && message@ == missing_path_message(input_path@)
            },
        },
{
    if blank(input_path) {
        return Err("Input path must not be empty.".to_owned());
    }
    if !exists {
        let mut m = chars_of("Path does not exist: ");
        push_str(&mut m, input_path);
        return Err(string_of(&m));
    }
    Ok(())
}

/// The outcome of a run that completed, as the request hands it back.
pub fn completed(result: &ProcessingResult) -> (r: FileConversionResult)
    ensures
        r.status@ == "completed"@,
        r.staging_path matches Some(p) && p@ == result.staging_path@,
        r.llm_output_path matches Some(p) && p@ == result.llm_output_path@,
        r.report_path matches Some(p) && p@ == result.report_path@,
{
    FileConversionResult {
        status: "completed".to_owned(),
        staging_path: Some(result.staging_path.clone()),
        llm_output_path: Some(result.llm_output_path.clone()),
        report_path: Some(result.report_path.clone()),
    }
}

/// The one message of a failed run, from its chain of causes.
pub fn processing_failed(causes: &Vec<String>) -> (r: String)
    ensures
        r@ == failure_report(texts(causes@)),
{
    let mut m = chars_of("Processing failed: ");
    let mut i: usize = 0;
    assert(m@ =~= "Processing failed: "@ + chained(texts(causes@), 0));
    while i < causes.len()
        invariant
            i <= causes.len(),
            m@ == "Processing failed: "@ + chained(texts(causes@), i as nat),
        decreases causes.len() - i,
    {
        if i > 0 {
            push_str(&mut m, " -> ");
        }
        assert(texts(causes@)[i as int] == causes@[i as int]@);
        push_str(&mut m, causes[i].as_str());
        assert(m@ =~= "Processing failed: "@ + chained(texts(causes@), (i + 1) as nat));
        i += 1;
    }
    string_of(&m)
}

/// Validates a path before it is handed to the desktop to be opened, given
/// whether it exists and what canonicalising it gave. The canonical path is
/// returned if the path exists, canonicalises, and holds no NUL, line feed
/// or carriage return.
pub fn validate_path_for_opening(path: &str, exists: bool, canonical: &Result<String, String>) -> (r:
    Result<String, String>)
    ensures
        match r {
            Ok(validated) => exists && (canonical matches Ok(c) && validated@ == c@
                && !has_forbidden_character(c@)),
            Err(message) => if !exists {
                message@ == missing_path_message(path@)
            } else {
                match canonical {
                    Err(e) => message@ == "Failed to resolve path: "@ + e@,
                    Ok(c) => has_forbidden_character(c@) && message@
                        == "Path contains invalid characters"@,
                }
            },
        },
{
    if !exists {
        let mut m = chars_of("Path does not exist: ");
        push_str(&mut m, path);
        return Err(string_of(&m));
    }
    match canonical {
        Err(e) => {
            let mut m = chars_of("Failed to resolve path: ");
            push_str(&mut m, e.as_str());
            Err(string_of(&m))
        },
        Ok(c) => {
            if holds_forbidden_character(c.as_str()) {
                Err("Path contains invalid characters".to_owned())
            } else {
                Ok(c.clone())
            }
        },
    }
}

/// Whether `path` holds a NUL, a line feed or a carriage return.
pub fn holds_forbidden_character(path: &str) -> (r: bool)
    ensures
        r == has_forbidden_character(path@),
{
    let t = chars_of(path);
    let mut i: usize = 0;
    while i < t.len()
        invariant
            i <= t.len(),
            t@ == path@,
            forall|j: int|
                0 <= j < i ==> !(#[trigger] t@[j] == '\0' || t@[j] == '\n' || t@[j] == '\r'),
        decreases t.len() - i,
    {
        if t[i] == '\0' || t[i] == '\n' || t[i] == '\r' {
            assert(path@[i as int] == '\0' || path@[i as int] == '\n' || path@[i as int] == '\r');
            return true;
        }
        i += 1;
    }
    false
}

} // verus!
