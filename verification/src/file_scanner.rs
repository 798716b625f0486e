//! The catalogue builder: turns what a walk of the staging tree found into
//! the ordered list of records, leaving out what the operating system
//! scatters among the files.

use vstd::prelude::*;
use crate::clock::{local_time_text, representable_moment};
use crate::paths::{extension_of, file_name_of, relative_to};
use crate::report_model::{ReportModel, ReportModelView, fresh_record};
use crate::text::{chars_of, same_text, spells, starts_with_chars, texts};

verus! {

/// Whether a file name is that of an artifact of the operating system or of
/// an office program: a name that begins with `~$`, `._` or `.DS`, or one
/// of `desktop.ini`, `thumbs.db`, `.DS_Store`.
pub open spec fn is_system_file(name: Seq<char>) -> bool {
    "~$"@.is_prefix_of(name) || "._"@.is_prefix_of(name) || ".DS"@.is_prefix_of(name) || name
        == "desktop.ini"@ || name == "thumbs.db"@ || name == ".DS_Store"@
}

/// A moment, in seconds and nanoseconds since the epoch.
#[derive(Debug, Clone, Copy)]
pub struct Timestamp {
    pub seconds: i64,
    pub nanoseconds: u32,
}

/// What the file system knows of a file.
#[derive(Debug, Clone, Copy)]
pub struct FileMetadata {
    /// Its size in bytes.
    pub size: u64,
    /// When it was last modified, where the platform tells.
    pub modified: Option<Timestamp>,
    /// When it was created, where the platform tells.
    pub created: Option<Timestamp>,
}

/// What a walk found at one path.
#[derive(Debug)]
pub struct ScannedFile {
    /// The path as walked.
    pub path: String,
    /// Its canonical form; the path itself where that cannot be had.
    pub canonical: String,
    /// Whether it is a regular file.
    pub is_file: bool,
    /// Its metadata, where it could be read.
    pub metadata: Option<FileMetadata>,
}

/// The name a file is catalogued under: its file name, `unknown` where its
/// path has none.
pub open spec fn catalogue_name(path: Seq<char>) -> Seq<char> {
    if file_name_of(path).len() == 0 {
        "unknown"@
    } else {
        file_name_of(path)
    }
}

/// The path a file is catalogued under: its path as seen from the root, the
/// path itself where it does not lie within the root.
pub open spec fn catalogue_path(root: Seq<char>, path: Seq<char>) -> Seq<char> {
    match relative_to(path, root) {
        Some(rel) => rel,
        None => path,
    }
}

/// The type a file is catalogued with: its extension, `unknown` where it has
/// none.
pub open spec fn catalogue_type(path: Seq<char>) -> Seq<char> {
    match extension_of(path) {
        Some(ext) => ext,
        None => "unknown"@,
    }
}

/// The time texts of a record: the modification time as formatted, or
/// `unknown`; the creation time as formatted, or else the modification text.
pub open spec fn time_texts(modified: Option<Seq<char>>, created: Option<Seq<char>>) -> (Seq<char>, Seq<
    char,
>) {
    let shown = match modified {
        Some(text) => text,
        None => "unknown"@,
    };
    (
        shown,
        match created {
            Some(text) => text,
            None => shown,
        },
    )
}

/// The record of the file at `path` below `root`.
pub open spec fn catalogued(
    root: Seq<char>,
    path: Seq<char>,
    size: u64,
    modified: Option<Seq<char>>,
    created: Option<Seq<char>>,
) -> ReportModelView {
    fresh_record(
        catalogue_name(path),
        catalogue_path(root, path),
        catalogue_type(path),
        size,
        time_texts(modified, created).0,
        time_texts(modified, created).1,
    )
}

/// Whether a walked path is catalogued: a regular file, not a system file,
/// not an archive that expansion has consumed, whose metadata could be read.
pub open spec fn is_catalogued(file: ScannedFile, consumed: Seq<Seq<char>>) -> bool {
    file.is_file && !is_system_file(catalogue_name(file.path@)) && !consumed.contains(
        file.canonical@,
    ) && file.metadata is Some
}

/// The number of catalogued files among the first `count` walked paths.
pub open spec fn catalogued_among(walk: Seq<ScannedFile>, consumed: Seq<Seq<char>>, count: nat) -> nat
    decreases count,
{
    if count == 0 {
        0
    } else {
        catalogued_among(walk, consumed, (count - 1) as nat) + if is_catalogued(
            walk[count - 1],
            consumed,
        ) {
            1nat
        } else {
            0nat
        }
    }
}

/// A record is that of a walked file, whatever its time texts say, as long
/// as a missing modification time is shown as `unknown` and a missing
/// creation time as the modification time.
pub open spec fn records(root: Seq<char>, file: ScannedFile, entry: ReportModelView) -> bool {
    &&& file.metadata matches Some(metadata)
    &&& entry == fresh_record(
        catalogue_name(file.path@),
        catalogue_path(root, file.path@),
        catalogue_type(file.path@),
        metadata.size,
        entry.last_modified,
        entry.created_time,
    )
    &&& metadata.modified is None ==> entry.last_modified == "unknown"@
    &&& metadata.created is None ==> entry.created_time == entry.last_modified
}

/// Builds the catalogue.
pub struct FileScanner {}

impl FileScanner {
    /// A scanner.
    pub fn new() -> (r: Self) {
        FileScanner {  }
    }

    /// Whether a file of this name is left out of staging tree and catalogue.
    pub fn should_skip_file(file_name: &str) -> (r: bool)
        ensures
            r == is_system_file(file_name@),
    {
        let name = chars_of(file_name);
        let tilde = chars_of("~$");
        let dot_underscore = chars_of("._");
        let dot_ds = chars_of(".DS");
        starts_with_chars(&name, &tilde) || starts_with_chars(&name, &dot_underscore)
            || starts_with_chars(&name, &dot_ds) || spells(&name, "desktop.ini") || spells(
            &name,
            "thumbs.db",
        ) || spells(&name, ".DS_Store")
    }

    /// The record of one file, for given texts of its times.
    pub fn catalogue_entry(
        root: &str,
        path: &str,
        size: u64,
        modified: Option<String>,
        created: Option<String>,
    ) -> (r: ReportModel)
        ensures
            r@ == catalogued(
                root@,
                path@,
                size,
                crate::report_model::text_of(modified),
                crate::report_model::text_of(created),
            ),
    {
        let own = crate::paths::file_name(path);
        let name: String = if own.as_str().unicode_len() == 0 {
            "unknown".to_owned()
        } else {
            own
        };
        let relative: String = match crate::paths::strip_root(path, root) {
            Some(rel) => rel,
            None => path.to_owned(),
        };
        let file_type: String = match crate::paths::extension(path) {
            Some(ext) => ext,
            None => "unknown".to_owned(),
        };
        let last_modified: String = match modified {
            Some(text) => text,
            None => "unknown".to_owned(),
        };
        let created_time: String = match created {
            Some(text) => text,
            None => last_modified.clone(),
        };
        ReportModel::new(name, relative, file_type, size, last_modified, created_time)
    }

    /// The text of a moment in local time: there is one exactly where there
    /// is a moment and it can be represented.
    fn time_text(moment: Option<Timestamp>) -> (r: Option<String>)
        ensures
            r is Some <==> (moment matches Some(t) && representable_moment(
                t.seconds,
                t.nanoseconds,
            )),
    {
        match moment {
            Some(t) => local_time_text(t.seconds, t.nanoseconds),
            None => None,
        }
    }

    /// Whether `canonical` is one of `consumed`.
    fn is_consumed(consumed: &Vec<String>, canonical: &str) -> (r: bool)
        ensures
            r == texts(consumed@).contains(canonical@),
    {
        let mut i: usize = 0;
        while i < consumed.len()
            invariant
                i <= consumed.len(),
                forall|j: int| 0 <= j < i ==> texts(consumed@)[j] != canonical@,
            decreases consumed.len() - i,
        {
            if same_text(consumed[i].as_str(), canonical) {
                assert(texts(consumed@)[i as int] == canonical@);
                return true;
            }
            i += 1;
        }
        false
    }

    /// Catalogues what a walk of the staging tree below `root_path` found:
    /// one record for every regular file that is not a system file, that
    /// is not one of the archives `consumed` by expansion, and whose
    /// metadata could be read, in walk order. The times are written in the
    /// local time zone, so their texts are not fixed here; everything else
    /// of every record is.
    pub fn scan(root_path: &str, walk: &Vec<ScannedFile>, consumed: &Vec<String>) -> (entries: Vec<
        ReportModel,
    >)
        ensures
            entries@.len() == catalogued_among(walk@, texts(consumed@), walk@.len()),
            forall|i: int|
                0 <= i < walk@.len() && is_catalogued(#[trigger] walk@[i], texts(consumed@))
                    ==> catalogued_among(walk@, texts(consumed@), i as nat) < entries@.len()
                    && records(
                    root_path@,
                    walk@[i],
                    entries@[catalogued_among(walk@, texts(consumed@), i as nat) as int]@,
                ),
    {
        let mut entries: Vec<ReportModel> = Vec::new();
        let ghost gone = texts(consumed@);
        let mut i: usize = 0;
        while i < walk.len()
            invariant
                i <= walk.len(),
                gone == texts(consumed@),
                entries@.len() == catalogued_among(walk@, gone, i as nat),
                forall|k: int|
                    0 <= k < i && is_catalogued(#[trigger] walk@[k], gone) ==> catalogued_among(
                        walk@,
                        gone,
                        k as nat,
                    ) < entries@.len() && records(
                        root_path@,
                        walk@[k],
                        entries@[catalogued_among(walk@, gone, k as nat) as int]@,
                    ),
            decreases walk.len() - i,
        {
            let file = &walk[i];
            proof {
                lemma_catalogued_among_monotonic(walk@, gone, i as nat);
            }
            if file.is_file {
                let own = crate::paths::file_name(file.path.as_str());
                let skip = if own.as_str().unicode_len() == 0 {
                    Self::should_skip_file("unknown")
                } else {
                    Self::should_skip_file(own.as_str())
                };
                if !skip && !Self::is_consumed(consumed, file.canonical.as_str()) {
                    match &file.metadata {
                        Some(metadata) => {
                            let modified = Self::time_text(metadata.modified);
                            let created = Self::time_text(metadata.created);
                            let entry = Self::catalogue_entry(
                                root_path,
                                file.path.as_str(),
                                metadata.size,
                                modified,
                                created,
                            );
                            let ghost before = entries@;
                            entries.push(entry);
                            assert forall|k: int|
                                0 <= k < i && is_catalogued(
                                    #[trigger] walk@[k],
                                    gone,
                                ) implies catalogued_among(walk@, gone, k as nat) < entries@.len()
                                && records(
                                root_path@,
                                walk@[k],
                                entries@[catalogued_among(walk@, gone, k as nat) as int]@,
                            ) by {
                                assert(entries@[catalogued_among(walk@, gone, k as nat) as int]
                                    == before[catalogued_among(walk@, gone, k as nat) as int]);
                            }
                        },
                        None => {},
                    }
                }
            }
            i += 1;
        }
        entries
    }
}

/// The count of catalogued files grows by at most one with each path.
pub proof fn lemma_catalogued_among_monotonic(
    walk: Seq<ScannedFile>,
    consumed: Seq<Seq<char>>,
    count: nat,
)
    ensures
        catalogued_among(walk, consumed, count) <= catalogued_among(walk, consumed, count + 1)
            <= catalogued_among(walk, consumed, count) + 1,
        catalogued_among(walk, consumed, count) <= count,
    decreases count,
{
    if count > 0 {
        lemma_catalogued_among_monotonic(walk, consumed, (count - 1) as nat);
    }
}

} // verus!
