//! Cycle-safe expansion of zip and gzip archives. The engine decides which
//! archives are expanded, where their contents go and which entries are
//! refused; reading and writing the files is left to the caller, who reports
//! what the file system said.

use vstd::prelude::*;
use std::io::Read;
use crate::clock::local_stamp;
use crate::errors::{ErrorKind, PipelineError};
use crate::path_resolver::{PathProbe, resolution, safe_resolve_path};
use crate::paths::{base_name, base_name_of, extension_of, has_parent, parent_of, path_has_parent,
    sibling_of, within};
use crate::text::{chars_of, string_of, lower_chars, lowered, push_str, same_text, spells, texts};

verus! {

/// The archive formats that are expanded.
#[derive(Debug, Clone, Copy, PartialEq, Eq, Structural)]
pub enum ArchiveKind {
    Zip,
    Gzip,
}

/// The archive format that a path's extension announces, whatever its case:
/// `zip` or `gz`.
pub open spec fn archive_kind_of(path: Seq<char>) -> Option<ArchiveKind> {
    match extension_of(path) {
        Some(ext) => if lowered(ext) == "zip"@ {
            Some(ArchiveKind::Zip)
        } else if lowered(ext) == "gz"@ {
            Some(ArchiveKind::Gzip)
        } else {
            None
        },
        None => None,
    }
}

/// The archive format that the extension of `path` announces.
pub fn archive_kind(path: &str) -> (r: Option<ArchiveKind>)
    ensures
        r == archive_kind_of(path@),
{
    match crate::paths::extension(path) {
        Some(ext) => {
            let e = chars_of(ext.as_str());
            let l = lower_chars(&e);
            if spells(&l, "zip") {
                Some(ArchiveKind::Zip)
            } else if spells(&l, "gz") {
                Some(ArchiveKind::Gzip)
            } else {
                None
            }
        },
        None => None,
    }
}

/// A name followed by two underscores and a time stamp.
pub open spec fn stamped(name: Seq<char>, stamp: Seq<char>) -> Seq<char> {
    name + seq!['_', '_'] + stamp
}

/// Where an archive is unpacked to: the sibling of the archive that is named
/// by its stem and the time stamp. `None` for a path that has no parent:
/// one without any character but `/`.
pub open spec fn expansion_target(archive_path: Seq<char>, stamp: Seq<char>) -> Option<Seq<char>> {
    if has_parent(archive_path) {
        Some(sibling_of(archive_path, stamped(base_name_of(archive_path, "extracted"@), stamp)))
    } else {
        None
    }
}

/// `name`, two underscores, `stamp`.
pub fn stamped_name(name: &str, stamp: &str) -> (r: String)
    ensures
        r@ == stamped(name@, stamp@),
{
    let mut v = chars_of(name);
    v.push('_');
    v.push('_');
    push_str(&mut v, stamp);
    assert(v@ =~= stamped(name@, stamp@));
    string_of(&v)
}

/// What is done with one entry of a zip archive.
#[derive(Debug)]
pub enum ExtractAction {
    /// The entry resolves outside the target directory: it is left out.
    Skip,
    /// The entry is a directory: create it.
    CreateDirectory { path: String },
    /// The entry is a file: create `parent` and what it lacks above it, then
    /// write the entry's bytes to `path`.
    WriteFile { path: String, parent: String },
}

/// An entry name that ends in `/` stands for a directory.
pub open spec fn names_directory(entry_name: Seq<char>) -> bool {
    entry_name.len() > 0 && entry_name.last() == '/'
}

/// One entry of an archive: its name as stored, and its bytes.
#[derive(Debug)]
pub struct ArchiveEntry {
    pub name: String,
    pub contents: Vec<u8>,
}

/// What a directory walk found at one path.
#[derive(Debug)]
pub struct WalkedEntry {
    /// The path as walked.
    pub path: String,
    /// Whether it is a regular file.
    pub is_file: bool,
    /// Its canonical form; the path itself where that cannot be had.
    pub canonical: String,
}

/// An archive that is to be expanded.
#[derive(Debug)]
pub struct ArchiveTask {
    pub path: String,
    pub canonical: String,
    pub kind: ArchiveKind,
}

/// What the engine decides on a path that a walk presents.
#[derive(Debug, Clone, Copy, PartialEq, Eq, Structural)]
pub enum ArchiveAction {
    /// Not a regular file with an archive extension.
    NotAnArchive,
    /// An archive that was expanded before in this run: skipped.
    AlreadyVisited,
    /// Expand this zip archive.
    ExpandZip,
    /// Decompress this gzip file.
    DecompressGzip,
}

/// The decision on a path, given the archives visited so far. An archive is
/// expanded only if its canonical path was not visited.
pub open spec fn visit_action(
    visited: Seq<Seq<char>>,
    path: Seq<char>,
    is_file: bool,
    canonical: Seq<char>,
) -> ArchiveAction {
    if !is_file {
        ArchiveAction::NotAnArchive
    } else {
        match archive_kind_of(path) {
            None => ArchiveAction::NotAnArchive,
            Some(kind) => if visited.contains(canonical) {
                ArchiveAction::AlreadyVisited
            } else {
                match kind {
                    ArchiveKind::Zip => ArchiveAction::ExpandZip,
                    ArchiveKind::Gzip => ArchiveAction::DecompressGzip,
                }
            },
        }
    }
}

/// Whether an action expands an archive.
pub open spec fn expands(action: ArchiveAction) -> bool {
    action == ArchiveAction::ExpandZip || action == ArchiveAction::DecompressGzip
}

/// The visited archives after a decision: the canonical path is added,
/// before its contents are expanded, exactly when the archive is expanded.
pub open spec fn visited_after(
    visited: Seq<Seq<char>>,
    path: Seq<char>,
    is_file: bool,
    canonical: Seq<char>,
) -> Seq<Seq<char>> {
    if expands(visit_action(visited, path, is_file, canonical)) {
        visited.push(canonical)
    } else {
        visited
    }
}

/// The visited archives after a whole walk has been presented.
pub open spec fn visited_through(visited: Seq<Seq<char>>, walk: Seq<WalkedEntry>) -> Seq<Seq<char>>
    decreases walk.len(),
{
    if walk.len() == 0 {
        visited
    } else {
        let before = visited_through(visited, walk.drop_last());
        visited_after(before, walk.last().path@, walk.last().is_file, walk.last().canonical@)
    }
}

/// The number of archives that a walk makes the engine expand.
pub open spec fn expansions_in(visited: Seq<Seq<char>>, walk: Seq<WalkedEntry>) -> nat
    decreases walk.len(),
{
    if walk.len() == 0 {
        0
    } else {
        let before = visited_through(visited, walk.drop_last());
        let rest = expansions_in(visited, walk.drop_last());
        if expands(
            visit_action(before, walk.last().path@, walk.last().is_file, walk.last().canonical@),
        ) {
            rest + 1
        } else {
            rest
        }
    }
}

/// The consumed archives after one more is reported as unpacked: it is
/// added if it was visited and is not recorded yet.
pub open spec fn consumed_after(
    visited: Seq<Seq<char>>,
    consumed: Seq<Seq<char>>,
    canonical: Seq<char>,
) -> Seq<Seq<char>> {
    if visited.contains(canonical) && !consumed.contains(canonical) {
        consumed.push(canonical)
    } else {
        consumed
    }
}

/// Only visited archives are consumed, and none twice.
pub proof fn lemma_consumed_were_visited(
    visited: Seq<Seq<char>>,
    consumed: Seq<Seq<char>>,
    canonical: Seq<char>,
)
    requires
        all_distinct(consumed),
        forall|p: Seq<char>| consumed.contains(p) ==> visited.contains(p),
    ensures
        all_distinct(consumed_after(visited, consumed, canonical)),
        forall|p: Seq<char>| #[trigger]
            consumed_after(visited, consumed, canonical).contains(p) ==> visited.contains(p),
{
    let after = consumed_after(visited, consumed, canonical);
    assert forall|p: Seq<char>| #[trigger] after.contains(p) implies visited.contains(p) by {
        let k = choose|k: int| 0 <= k < after.len() && after[k] == p;
        if k < consumed.len() {
            assert(consumed[k] == p);
            assert(consumed.contains(p));
        }
    }
    assert forall|i: int, j: int| 0 <= i < j < after.len() implies after[i] != after[j] by {
        if j >= consumed.len() {
            assert(consumed[i] == after[i]);
            assert(consumed.contains(after[i]));
        }
    }
}

/// No path occurs twice.
pub open spec fn all_distinct(paths: Seq<Seq<char>>) -> bool {
    forall|i: int, j: int| 0 <= i < j < paths.len() ==> paths[i] != paths[j]
}

/// At most once: after any decision on a canonical path, no later decision
/// on the same canonical path expands it again, whatever the paths are
/// called and whatever was decided in between on other paths.
pub proof fn lemma_expanded_at_most_once(
    visited: Seq<Seq<char>>,
    path: Seq<char>,
    is_file: bool,
    canonical: Seq<char>,
    between: Seq<WalkedEntry>,
    later_path: Seq<char>,
    later_is_file: bool,
)
    requires
        expands(visit_action(visited, path, is_file, canonical)),
    ensures
        !expands(
            visit_action(
                visited_through(visited_after(visited, path, is_file, canonical), between),
                later_path,
                later_is_file,
                canonical,
            ),
        ),
{
    let start = visited_after(visited, path, is_file, canonical);
    assert(start.last() == canonical);
    assert(start.contains(canonical));
    lemma_visited_grows(start, between);
}

/// A walk only ever adds to the visited archives.
pub proof fn lemma_visited_grows(visited: Seq<Seq<char>>, walk: Seq<WalkedEntry>)
    ensures
        visited.is_prefix_of(visited_through(visited, walk)),
        forall|p: Seq<char>| visited.contains(p) ==> visited_through(visited, walk).contains(p),
        visited_through(visited, walk).len() == visited.len() + expansions_in(visited, walk),
    decreases walk.len(),
{
    if walk.len() > 0 {
        lemma_visited_grows(visited, walk.drop_last());
        let before = visited_through(visited, walk.drop_last());
        let after = visited_through(visited, walk);
        assert forall|p: Seq<char>| visited.contains(p) implies after.contains(p) by {
            let k = choose|k: int| 0 <= k < before.len() && before[k] == p;
            assert(after[k] == p);
        }
    }
}

/// What a walk adds to the visited archives are canonical paths of archive
/// files of that walk: nothing is expanded that the walk did not present.
pub proof fn lemma_visited_comes_from_walk(visited: Seq<Seq<char>>, walk: Seq<WalkedEntry>)
    ensures
        forall|p: Seq<char>| #[trigger]
            visited_through(visited, walk).contains(p) ==> visited.contains(p) || exists|i: int|
                0 <= i < walk.len() && (#[trigger] walk[i]).canonical@ == p && walk[i].is_file
                    && archive_kind_of(walk[i].path@) is Some,
    decreases walk.len(),
{
    if walk.len() > 0 {
        let front = walk.drop_last();
        lemma_visited_comes_from_walk(visited, front);
        let before = visited_through(visited, front);
        let after = visited_through(visited, walk);
        assert forall|p: Seq<char>| #[trigger] after.contains(p) implies visited.contains(p)
            || exists|i: int|
            0 <= i < walk.len() && (#[trigger] walk[i]).canonical@ == p && walk[i].is_file
                && archive_kind_of(walk[i].path@) is Some by {
            let k = choose|k: int| 0 <= k < after.len() && after[k] == p;
            if k < before.len() {
                assert(before[k] == p);
                assert(before.contains(p));
                if !visited.contains(p) {
                    let i = choose|i: int|
                        0 <= i < front.len() && (#[trigger] front[i]).canonical@ == p
                            && front[i].is_file && archive_kind_of(front[i].path@) is Some;
                    assert(walk[i] == front[i]);
                }
            } else {
                assert(walk[walk.len() - 1].canonical@ == p);
            }
        }
    }
}

/// A walk never makes the visited archives hold a path twice: every archive
/// it expands was not visited before.
pub proof fn lemma_visited_stays_distinct(visited: Seq<Seq<char>>, walk: Seq<WalkedEntry>)
    requires
        all_distinct(visited),
    ensures
        all_distinct(visited_through(visited, walk)),
    decreases walk.len(),
{
    if walk.len() > 0 {
        lemma_visited_stays_distinct(visited, walk.drop_last());
    }
}

/// What is absent from a sequence is absent from each part of it.
proof fn lemma_absent_from_parts(a: Seq<Seq<char>>, b: Seq<Seq<char>>, p: Seq<char>)
    requires
        !(a + b).contains(p),
    ensures
        !a.contains(p),
        forall|k: int| 0 <= k < b.len() ==> b[k] != p,
{
    if a.contains(p) {
        let m = choose|m: int| 0 <= m < a.len() && a[m] == p;
        assert((a + b)[m] == p);
    }
    assert forall|k: int| 0 <= k < b.len() implies b[k] != p by {
        if b[k] == p {
            assert((a + b)[a.len() + k] == p);
        }
    }
}

/// The name for the bytes of a zip archive as the zip reader finds them:
/// the number of entries in its central directory, or `None` where the
/// bytes are not an archive it accepts.
pub uninterp spec fn zip_directory(data: Seq<u8>) -> Option<nat>;

/// The name for one entry of a zip archive as the zip reader yields it: the
/// entry's stored name and its decoded bytes, or `None` where the entry
/// cannot be read.
pub uninterp spec fn zip_entry(data: Seq<u8>, index: nat) -> Option<(Seq<char>, Seq<u8>)>;

/// The name for what a single gzip member decodes to, or `None` where the
/// bytes are not a gzip stream that decodes.
pub uninterp spec fn gzip_decoded(data: Seq<u8>) -> Option<Seq<u8>>;

/// The bytes that an opened archive reads from.
pub uninterp spec fn archive_bytes(archive: zip::ZipArchive<std::io::Cursor<Vec<u8>>>) -> Seq<u8>;

#[verifier::external_type_specification]
#[verifier::external_body]
#[verifier::reject_recursive_types(T)]
pub struct ExCursor<T>(std::io::Cursor<T>);

#[verifier::external_type_specification]
#[verifier::external_body]
#[verifier::reject_recursive_types(R)]
pub struct ExZipArchive<R>(zip::ZipArchive<R>);

#[verifier::external_type_specification]
#[verifier::external_body]
pub struct ExZipError(zip::result::ZipError);

#[verifier::external_type_specification]
#[verifier::external_body]
pub struct ExIoError(std::io::Error);

/// Calls `zip::ZipArchive::new` on the bytes, held in memory. Trusted: the
/// call succeeds exactly on the bytes that have a directory, and the
/// archive it returns reads from those bytes.
#[verifier::external_body]
fn open_archive(data: Vec<u8>) -> (r: Result<
    zip::ZipArchive<std::io::Cursor<Vec<u8>>>,
    zip::result::ZipError,
>)
    ensures
        r is Ok <==> zip_directory(data@) is Some,
        r matches Ok(archive) ==> archive_bytes(archive) == data@,
{
    zip::ZipArchive::new(std::io::Cursor::new(data))
}

/// Calls `zip::ZipArchive::len`. Trusted: the result is the number of
/// entries in the directory of the bytes the archive was opened on.
#[verifier::external_body]
fn archive_len(archive: &zip::ZipArchive<std::io::Cursor<Vec<u8>>>) -> (r: usize)
    ensures
        zip_directory(archive_bytes(*archive)) == Some(r as nat),
{
    archive.len()
}

/// Calls `zip::ZipArchive::by_index`, then reads the entry's name with
/// `ZipFile::name` and its bytes with `read_to_end`. Trusted: the outcome is
/// a function of the archive's bytes and the index, and the archive goes on
/// reading from the same bytes.
#[verifier::external_body]
fn read_archive_entry(archive: &mut zip::ZipArchive<std::io::Cursor<Vec<u8>>>, index: usize) -> (r:
    Result<ArchiveEntry, zip::result::ZipError>)
    ensures
        archive_bytes(*final(archive)) == archive_bytes(*old(archive)),
        match r {
            Ok(entry) => zip_entry(archive_bytes(*old(archive)), index as nat) == Some(
                (entry.name@, entry.contents@),
            ),
            Err(_) => zip_entry(archive_bytes(*old(archive)), index as nat) is None,
        },
{
    let mut file = archive.by_index(index)?;
    let name = file.name()?.into_owned();
    let mut contents = Vec::new();
    match file.read_to_end(&mut contents) {
        Ok(_) => Ok(ArchiveEntry { name, contents }),
        Err(e) => Err(zip::result::ZipError::Io(e)),
    }
}

/// Writes out a zip error with its `Display`. Trusted; nothing is claimed
/// of the text.
#[verifier::external_body]
fn zip_error_text(error: &zip::result::ZipError) -> String {
    format!("{}", error)
}

/// Calls `flate2::read::GzDecoder::new` on the bytes and reads the decoder
/// to its end. Trusted: the outcome is a function of the bytes alone.
#[verifier::external_body]
fn gzip_decode(data: &[u8]) -> (r: Result<Vec<u8>, std::io::Error>)
    ensures
        match r {
            Ok(decoded) => gzip_decoded(data@) == Some(decoded@),
            Err(_) => gzip_decoded(data@) is None,
        },
{
    let mut decoded = Vec::new();
    match flate2::read::GzDecoder::new(data).read_to_end(&mut decoded) {
        Ok(_) => Ok(decoded),
        Err(e) => Err(e),
    }
}

/// Writes out an I/O error with its `Display`. Trusted; nothing is claimed
/// of the text.
#[verifier::external_body]
fn io_error_text(error: &std::io::Error) -> String {
    format!("{}", error)
}

/// A zip archive that is read entry by entry, in directory order.
pub struct ZipReader {
    archive: zip::ZipArchive<std::io::Cursor<Vec<u8>>>,
    next: usize,
}

impl ZipReader {
    /// The bytes of the archive.
    pub closed spec fn source(&self) -> Seq<u8> {
        archive_bytes(self.archive)
    }

    /// The index of the entry that is read next.
    pub closed spec fn position(&self) -> nat {
        self.next as nat
    }

    /// Opens the archive held in `data`. Fails with an archive format error
    /// exactly on bytes that the zip reader does not accept.
    pub fn open(data: Vec<u8>) -> (r: Result<ZipReader, PipelineError>)
        ensures
            match r {
                Ok(reader) => zip_directory(data@) is Some && reader.source() == data@
                    && reader.position() == 0,
                Err(e) => zip_directory(data@) is None && e.kind == ErrorKind::ArchiveFormatError,
            },
    {
        match open_archive(data) {
            Ok(archive) => Ok(ZipReader { archive, next: 0 }),
            Err(e) => Err(PipelineError::new(ErrorKind::ArchiveFormatError, zip_error_text(&e))),
        }
    }

    /// The number of entries in the archive.
    pub fn len(&self) -> (r: usize)
        ensures
            zip_directory(self.source()) == Some(r as nat),
    {
        archive_len(&self.archive)
    }

    /// Reads the next entry, in directory order. `Ok(None)` once every entry
    /// has been read. An entry that cannot be read is an archive format
    /// error, and reading does not move past it.
    pub fn next_entry(&mut self) -> (r: Result<Option<ArchiveEntry>, PipelineError>)
        ensures
            final(self).source() == old(self).source(),
            zip_directory(old(self).source()) matches Some(count) && match r {
                Ok(None) => old(self).position() >= count && final(self).position() == old(
                    self,
                ).position(),
                Ok(Some(entry)) => old(self).position() < count && zip_entry(
                    old(self).source(),
                    old(self).position(),
                ) == Some((entry.name@, entry.contents@)) && final(self).position() == old(
                    self,
                ).position() + 1,
                Err(e) => old(self).position() < count && zip_entry(
                    old(self).source(),
                    old(self).position(),
                ) is None && e.kind == ErrorKind::ArchiveFormatError && final(self).position()
                    == old(self).position(),
            },
    {
        let count = archive_len(&self.archive);
        if self.next >= count {
            return Ok(None);
        }
        match read_archive_entry(&mut self.archive, self.next) {
            Ok(entry) => {
                self.next = self.next + 1;
                Ok(Some(entry))
            },
            Err(e) => Err(PipelineError::new(ErrorKind::ArchiveFormatError, zip_error_text(&e))),
        }
    }
}

/// What decompressing a gzip file yields: where the bytes go, and the bytes.
#[derive(Debug)]
pub struct GzipOutput {
    pub output_path: String,
    pub contents: Vec<u8>,
}

/// Expands archives, each canonical archive path at most once in a run.
pub struct DecompressionEngine {
    visited_paths: Vec<String>,
    consumed_paths: Vec<String>,
}

impl DecompressionEngine {
    /// The canonical paths of the archives visited so far in this run, in
    /// the order in which they were first met. An archive is visited before
    /// its contents are expanded.
    pub closed spec fn visited(&self) -> Seq<Seq<char>> {
        self.visited_paths@.map_values(|s: String| s@)
    }

    /// The canonical paths of the archives that expansion has consumed: the
    /// visited archives whose contents were unpacked. They are no data files
    /// and are left out of the catalogue.
    pub closed spec fn consumed(&self) -> Seq<Seq<char>> {
        self.consumed_paths@.map_values(|s: String| s@)
    }

    /// An engine that has visited nothing.
    pub fn new() -> (r: Self)
        ensures
            r.visited() == Seq::<Seq<char>>::empty(),
            r.consumed() == Seq::<Seq<char>>::empty(),
    {
        let r = DecompressionEngine { visited_paths: Vec::new(), consumed_paths: Vec::new() };
        assert(r.visited() =~= Seq::<Seq<char>>::empty());
        assert(r.consumed() =~= Seq::<Seq<char>>::empty());
        r
    }

    /// Whether the archive at `canonical` was consumed by expansion.
    pub fn was_consumed(&self, canonical: &str) -> (r: bool)
        ensures
            r == self.consumed().contains(canonical@),
    {
        let mut i: usize = 0;
        while i < self.consumed_paths.len()
            invariant
                i <= self.consumed_paths.len(),
                forall|j: int| 0 <= j < i ==> self.consumed()[j] != canonical@,
            decreases self.consumed_paths.len() - i,
        {
            if same_text(self.consumed_paths[i].as_str(), canonical) {
                assert(self.consumed()[i as int] == canonical@);
                return true;
            }
            i += 1;
        }
        false
    }

    /// Records that the contents of the archive at `canonical` were
    /// unpacked. Only a visited archive can be consumed, and it is recorded
    /// once; the answer says whether the archive now counts as consumed.
    pub fn mark_expanded(&mut self, canonical: &str) -> (r: bool)
        ensures
            r == old(self).visited().contains(canonical@),
            final(self).visited() == old(self).visited(),
            final(self).consumed() == consumed_after(
                old(self).visited(),
                old(self).consumed(),
                canonical@,
            ),
    {
        if !self.has_visited(canonical) {
            return false;
        }
        if !self.was_consumed(canonical) {
            let ghost before = self.consumed();
            self.consumed_paths.push(canonical.to_owned());
            assert(self.consumed() =~= before.push(canonical@));
        }
        true
    }

    /// The canonical paths of the archives consumed so far.
    pub fn consumed_archives(&self) -> (r: Vec<String>)
        ensures
            texts(r@) == self.consumed(),
    {
        let mut copy: Vec<String> = Vec::new();
        let mut i: usize = 0;
        while i < self.consumed_paths.len()
            invariant
                i <= self.consumed_paths.len(),
                copy@.len() == i,
                forall|k: int| 0 <= k < i ==> (#[trigger] copy@[k])@ == self.consumed_paths@[k]@,
            decreases self.consumed_paths.len() - i,
        {
            copy.push(self.consumed_paths[i].clone());
            i += 1;
        }
        assert(texts(copy@) =~= self.consumed());
        copy
    }

    /// Whether `canonical` was visited.
    fn has_visited(&self, canonical: &str) -> (r: bool)
        ensures
            r == self.visited().contains(canonical@),
    {
        let mut i: usize = 0;
        while i < self.visited_paths.len()
            invariant
                i <= self.visited_paths.len(),
                forall|j: int| 0 <= j < i ==> self.visited()[j] != canonical@,
            decreases self.visited_paths.len() - i,
        {
            if same_text(self.visited_paths[i].as_str(), canonical) {
                assert(self.visited()[i as int] == canonical@);
                return true;
            }
            i += 1;
        }
        false
    }

    /// Decides on one path that a walk presents: an archive is expanded
    /// unless its canonical path was visited in this run; when it is
    /// expanded, its canonical path is recorded first.
    pub fn visit(&mut self, path: &str, is_file: bool, canonical: &str) -> (action: ArchiveAction)
        ensures
            action == visit_action(old(self).visited(), path@, is_file, canonical@),
            final(self).visited() == visited_after(old(self).visited(), path@, is_file, canonical@),
            final(self).consumed() == old(self).consumed(),
            all_distinct(old(self).visited()) ==> all_distinct(final(self).visited()),
    {
        if !is_file {
            return ArchiveAction::NotAnArchive;
        }
        match archive_kind(path) {
            None => ArchiveAction::NotAnArchive,
            Some(kind) => {
                if self.has_visited(canonical) {
                    ArchiveAction::AlreadyVisited
                } else {
                    let ghost before = self.visited();
                    self.visited_paths.push(canonical.to_owned());
                    assert(self.visited() =~= before.push(canonical@));
                    match kind {
                        ArchiveKind::Zip => ArchiveAction::ExpandZip,
                        ArchiveKind::Gzip => ArchiveAction::DecompressGzip,
                    }
                }
            },
        }
    }

    /// Whether `path` has the extension of a recognised archive.
    pub fn is_compressed_file(path: &str) -> (r: bool)
        ensures
            r == archive_kind_of(path@) is Some,
    {
        archive_kind(path).is_some()
    }

    /// Decides on every path of one directory walk, in walk order, and
    /// returns the archives to expand. Each returned archive was not visited
    /// before, no two of them share a canonical path, and all of them are
    /// visited afterwards.
    pub fn decompress_walk(&mut self, walk: &Vec<WalkedEntry>) -> (tasks: Vec<ArchiveTask>)
        ensures
            final(self).visited() == visited_through(old(self).visited(), walk@),
            final(self).consumed() == old(self).consumed(),
            tasks@.len() == expansions_in(old(self).visited(), walk@),
            final(self).visited() == old(self).visited() + tasks@.map_values(
                |t: ArchiveTask| t.canonical@,
            ),
            all_distinct(old(self).visited()) ==> all_distinct(final(self).visited()),
            forall|i: int|
                0 <= i < tasks@.len() ==> !old(self).visited().contains(
                    #[trigger] tasks@[i].canonical@,
                ),
            forall|i: int, j: int|
                0 <= i < j < tasks@.len() ==> tasks@[i].canonical@ != tasks@[j].canonical@,
            forall|i: int|
                0 <= i < tasks@.len() ==> archive_kind_of(#[trigger] tasks@[i].path@) == Some(
                    tasks@[i].kind,
                ),
    {
        let mut tasks: Vec<ArchiveTask> = Vec::new();
        let ghost start = self.visited();
        let mut i: usize = 0;
        assert(walk@.take(0) =~= Seq::<WalkedEntry>::empty());
        assert(start + tasks@.map_values(|t: ArchiveTask| t.canonical@) =~= start);
        while i < walk.len()
            invariant
                i <= walk.len(),
                self.consumed() == old(self).consumed(),
                self.visited() == visited_through(start, walk@.take(i as int)),
                tasks@.len() == expansions_in(start, walk@.take(i as int)),
                self.visited() == start + tasks@.map_values(|t: ArchiveTask| t.canonical@),
                forall|k: int|
                    0 <= k < tasks@.len() ==> archive_kind_of(#[trigger] tasks@[k].path@) == Some(
                        tasks@[k].kind,
                    ),
                forall|k: int|
                    0 <= k < tasks@.len() ==> !start.contains(#[trigger] tasks@[k].canonical@),
                forall|a: int, b: int|
                    0 <= a < b < tasks@.len() ==> tasks@[a].canonical@ != tasks@[b].canonical@,
            decreases walk.len() - i,
        {
            let entry = &walk[i];
            let ghost before = self.visited();
            let ghost names = tasks@.map_values(|t: ArchiveTask| t.canonical@);
            proof {
                assert(walk@.take(i + 1).drop_last() == walk@.take(i as int));
                assert(walk@.take(i + 1).last() == walk@[i as int]);
            }
            let action = self.visit(entry.path.as_str(), entry.is_file, entry.canonical.as_str());
            match action {
                ArchiveAction::ExpandZip => {
                    tasks.push(
                        ArchiveTask {
                            path: entry.path.clone(),
                            canonical: entry.canonical.clone(),
                            kind: ArchiveKind::Zip,
                        },
                    );
                    assert(tasks@.map_values(|t: ArchiveTask| t.canonical@) =~= names.push(
                        entry.canonical@,
                    ));
                    assert(self.visited() =~= start + tasks@.map_values(
                        |t: ArchiveTask| t.canonical@,
                    ));
                    proof {
                        lemma_absent_from_parts(start, names, entry.canonical@);
                        assert forall|k: int| 0 <= k < tasks@.len() - 1 implies tasks@[k].canonical@
                            != entry.canonical@ by {
                            assert(names[k] == tasks@[k].canonical@);
                        }
                    }
                },
                ArchiveAction::DecompressGzip => {
                    tasks.push(
                        ArchiveTask {
                            path: entry.path.clone(),
                            canonical: entry.canonical.clone(),
                            kind: ArchiveKind::Gzip,
                        },
                    );
                    assert(tasks@.map_values(|t: ArchiveTask| t.canonical@) =~= names.push(
                        entry.canonical@,
                    ));
                    assert(self.visited() =~= start + tasks@.map_values(
                        |t: ArchiveTask| t.canonical@,
                    ));
                    proof {
                        lemma_absent_from_parts(start, names, entry.canonical@);
                        assert forall|k: int| 0 <= k < tasks@.len() - 1 implies tasks@[k].canonical@
                            != entry.canonical@ by {
                            assert(names[k] == tasks@[k].canonical@);
                        }
                    }
                },
                _ => {},
            }
            i += 1;
        }
        proof {
            assert(walk@.take(walk.len() as int) == walk@);
            if all_distinct(start) {
                lemma_visited_stays_distinct(start, walk@);
            }
        }
        tasks
    }

    /// Starts a run on one directory walk: whatever was visited in an
    /// run before is forgotten, then every path of the walk is decided on.
    pub fn recursive_decompress(&mut self, walk: &Vec<WalkedEntry>) -> (tasks: Vec<ArchiveTask>)
        ensures
            final(self).visited() == visited_through(Seq::<Seq<char>>::empty(), walk@),
            final(self).consumed() == Seq::<Seq<char>>::empty(),
            tasks@.len() == expansions_in(Seq::<Seq<char>>::empty(), walk@),
            final(self).visited() == tasks@.map_values(|t: ArchiveTask| t.canonical@),
            all_distinct(final(self).visited()),
            forall|i: int, j: int|
                0 <= i < j < tasks@.len() ==> tasks@[i].canonical@ != tasks@[j].canonical@,
            forall|i: int|
                0 <= i < tasks@.len() ==> archive_kind_of(#[trigger] tasks@[i].path@) == Some(
                    tasks@[i].kind,
                ),
    {
        self.visited_paths = Vec::new();
        self.consumed_paths = Vec::new();
        assert(self.visited() =~= Seq::<Seq<char>>::empty());
        assert(self.consumed() =~= Seq::<Seq<char>>::empty());
        let tasks = self.decompress_walk(walk);
        assert(self.visited() =~= tasks@.map_values(|t: ArchiveTask| t.canonical@));
        tasks
    }

    /// Where the zip archive at `zip_path` is unpacked to, for a given time
    /// stamp: the sibling directory named by the archive's stem, two
    /// underscores and the stamp. Fails where the path has no parent.
    pub fn expansion_folder(zip_path: &str, stamp: &str) -> (r: Result<String, PipelineError>)
        ensures
            match r {
                Ok(folder) => expansion_target(zip_path@, stamp@) == Some(folder@),
                Err(e) => expansion_target(zip_path@, stamp@) is None && e.kind
                    == ErrorKind::IOFailure && e.message@ == "ZIP file has no parent directory"@,
            },
    {
        if !path_has_parent(zip_path) {
            return Err(
                PipelineError::new(
                    ErrorKind::IOFailure,
                    "ZIP file has no parent directory".to_owned(),
                ),
            );
        }
        let base = base_name(zip_path, "extracted");
        let name = stamped_name(base.as_str(), stamp);
        Ok(crate::paths::sibling(zip_path, name.as_str()))
    }

    /// Where the zip archive at `zip_path` is unpacked to now: the folder
    /// for the time stamp of this moment.
    pub fn expand_zip_to_folder(&self, zip_path: &str) -> (r: Result<String, PipelineError>)
        ensures
            match r {
                Ok(folder) => exists|stamp: Seq<char>| #[trigger]
                    expansion_target(zip_path@, stamp) == Some(folder@),
                Err(e) => !has_parent(zip_path@) && e.kind == ErrorKind::IOFailure,
            },
    {
        let stamp = local_stamp();
        Self::expansion_folder(zip_path, stamp.as_str())
    }

    /// Decides what is done with one entry of a zip archive that is being
    /// unpacked into `output_dir` (canonical), given what the file system
    /// said about the entry's candidate path under `output_dir`. An entry that
    /// resolves outside the directory is skipped; every path that is created
    /// or written lies within the directory.
    pub fn plan_entry(output_dir: &str, entry_name: &str, probe: &PathProbe) -> (action:
        ExtractAction)
        ensures
            match action {
                ExtractAction::Skip => resolution(output_dir@, entry_name@, *probe) is None,
                ExtractAction::CreateDirectory { path } => resolution(
                    output_dir@,
                    entry_name@,
                    *probe,
                ) == Some(path@) && names_directory(entry_name@) && within(path@, output_dir@),
                ExtractAction::WriteFile { path, parent } => resolution(
                    output_dir@,
                    entry_name@,
                    *probe,
                ) == Some(path@) && !names_directory(entry_name@) && within(path@, output_dir@)
                    && parent@ == parent_of(path@),
            },
    {
        match safe_resolve_path(output_dir, entry_name, probe) {
            Err(_) => ExtractAction::Skip,
            Ok(path) => {
                let name = chars_of(entry_name);
                if name.len() > 0 && name[name.len() - 1] == '/' {
                    ExtractAction::CreateDirectory { path }
                } else {
                    let parent = crate::paths::parent(path.as_str());
                    ExtractAction::WriteFile { path, parent }
                }
            },
        }
    }

    /// Where the gzip file at `gz_path` is decompressed to, for a given time
    /// stamp: the sibling file named by the stem, two underscores and the
    /// stamp, without an extension of its own.
    pub fn gzip_target(gz_path: &str, stamp: &str) -> (r: Result<String, PipelineError>)
        ensures
            match r {
                Ok(target) => expansion_target(gz_path@, stamp@) == Some(target@),
                Err(e) => expansion_target(gz_path@, stamp@) is None && e.kind
                    == ErrorKind::IOFailure && e.message@ == "GZ file has no parent directory"@,
            },
    {
        if !path_has_parent(gz_path) {
            return Err(
                PipelineError::new(ErrorKind::IOFailure, "GZ file has no parent directory".to_owned()),
            );
        }
        let base = base_name(gz_path, "extracted");
        let name = stamped_name(base.as_str(), stamp);
        Ok(crate::paths::sibling(gz_path, name.as_str()))
    }

    /// Decodes the bytes of a gzip file. Fails with an archive format error
    /// exactly on bytes that do not decode.
    pub fn gunzip(data: &[u8]) -> (r: Result<Vec<u8>, PipelineError>)
        ensures
            match r {
                Ok(decoded) => gzip_decoded(data@) == Some(decoded@),
                Err(e) => gzip_decoded(data@) is None && e.kind == ErrorKind::ArchiveFormatError,
            },
    {
        match gzip_decode(data) {
            Ok(decoded) => Ok(decoded),
            Err(e) => Err(PipelineError::new(ErrorKind::ArchiveFormatError, io_error_text(&e))),
        }
    }

    /// Decompresses the gzip file at `gz_path`, given its bytes: the decoded
    /// bytes, and the sibling path they are written to.
    pub fn decompress_gz(&self, gz_path: &str, data: &[u8]) -> (r: Result<GzipOutput, PipelineError>)
        ensures
            match r {
                Ok(out) => gzip_decoded(data@) == Some(out.contents@) && exists|stamp: Seq<char>|
                 #[trigger]
                    expansion_target(gz_path@, stamp) == Some(out.output_path@),
                Err(e) => (!has_parent(gz_path@) && e.kind == ErrorKind::IOFailure) || (
                gzip_decoded(data@) is None && e.kind == ErrorKind::ArchiveFormatError),
            },
    {
        let stamp = local_stamp();
        let output_path = Self::gzip_target(gz_path, stamp.as_str())?;
        let contents = Self::gunzip(data)?;
        Ok(GzipOutput { output_path, contents })
    }
}

} // verus!
