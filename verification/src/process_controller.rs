//! The orchestrator: the strictly sequential stages of a run, the
//! preparation of the staging tree, the processing of every catalogue
//! record on what the caller observed of its file, and the layout of the
//! output. The failure of one file never touches another.

use vstd::prelude::*;
use crate::clock::local_stamp;
use crate::conversion_engine::{ConversionEngine, convertible};
use crate::decompression_engine::{DecompressionEngine, ArchiveKind, archive_kind, archive_kind_of,
    expansion_target, stamped, stamped_name};
use crate::errors::{ErrorKind, PipelineError};
use crate::file_scanner::{FileScanner, is_system_file, catalogue_name};
use crate::path_resolver::{PathProbe, resolution, safe_resolve_path};
use crate::paths::{file_name_of, has_parent, joined, own_name, own_name_of, parent_of,
    path_has_parent, relative_to, sibling_of};
use crate::report_model::{ReportModel, ReportModelView, ProcessingStatus, llm_readable, text_of,
    copy_text};
use crate::text::{chars_of, string_of, push_str};

verus! {

/// A progress notification: how far a task has come.
#[derive(Debug, Clone)]
pub struct ProgressUpdate {
    pub current: usize,
    pub total: usize,
    pub task_category: String,
}

/// What a finished run hands back: the records in catalogue order, and
/// where the staging tree, the export and the report are.
#[derive(Debug)]
pub struct ProcessingResult {
    pub entries: Vec<ReportModel>,
    pub staging_path: String,
    pub llm_output_path: String,
    pub report_path: String,
}

/// The stages of a run, in order, and the two ways it ends.
#[derive(Debug, Clone, Copy, PartialEq, Eq, Structural)]
pub enum PipelineStage {
    Preparing,
    Decompressing,
    Cataloging,
    Processing,
    Exporting,
    ReportGenerated,
    Done,
    Failed,
}

/// The stage that follows `stage` when it ends well, or `Failed` when it
/// ends with an unrecoverable fault. `Done` and `Failed` are final.
pub open spec fn stage_after(stage: PipelineStage, succeeded: bool) -> PipelineStage {
    match stage {
        PipelineStage::Done => PipelineStage::Done,
        PipelineStage::Failed => PipelineStage::Failed,
        _ => if !succeeded {
            PipelineStage::Failed
        } else {
            match stage {
                PipelineStage::Preparing => PipelineStage::Decompressing,
                PipelineStage::Decompressing => PipelineStage::Cataloging,
                PipelineStage::Cataloging => PipelineStage::Processing,
                PipelineStage::Processing => PipelineStage::Exporting,
                PipelineStage::Exporting => PipelineStage::ReportGenerated,
                _ => PipelineStage::Done,
            }
        },
    }
}

/// The position of a stage in the order of a run.
pub open spec fn stage_rank(stage: PipelineStage) -> nat {
    match stage {
        PipelineStage::Preparing => 0,
        PipelineStage::Decompressing => 1,
        PipelineStage::Cataloging => 2,
        PipelineStage::Processing => 3,
        PipelineStage::Exporting => 4,
        PipelineStage::ReportGenerated => 5,
        PipelineStage::Done => 6,
        PipelineStage::Failed => 7,
    }
}

/// A run only moves forward: a stage that ends well is followed by the next
/// in order, and no stage is ever entered again.
pub proof fn lemma_stages_in_order(stage: PipelineStage, succeeded: bool)
    ensures
        stage_rank(stage_after(stage, succeeded)) >= stage_rank(stage),
        stage != PipelineStage::Done && stage != PipelineStage::Failed ==> stage_rank(
            stage_after(stage, succeeded),
        ) > stage_rank(stage),
        stage != PipelineStage::Done && stage != PipelineStage::Failed && succeeded ==> stage_rank(
            stage_after(stage, succeeded),
        ) == stage_rank(stage) + 1,
{
}

/// What kind of thing the input of a run is.
#[derive(Debug, Clone, Copy, PartialEq, Eq, Structural)]
pub enum InputKind {
    File,
    Directory,
    Other,
}

/// How the staging tree is made from the input.
#[derive(Debug)]
pub enum WorkspacePlan {
    /// The input is a zip archive: unpack it to `staging_path`.
    ExpandZip { archive: String, staging_path: String },
    /// The input is a folder: copy its tree to `staging_path`.
    CopyTree { source: String, staging_path: String },
    /// Anything else passes through as it is.
    UseAsIs { path: String },
}

/// The name a folder lends to its staging copy: its own name, `folder`
/// where its path has none.
pub open spec fn folder_name(path: Seq<char>) -> Seq<char> {
    own_name_of(path, "folder"@)
}

/// Where the staging copy of a folder goes: the sibling named by the
/// folder's name and the time stamp.
pub open spec fn staging_copy_target(input: Seq<char>, stamp: Seq<char>) -> Seq<char> {
    sibling_of(input, stamped(folder_name(input), stamp))
}

/// What a walk of the input folder found at one path.
#[derive(Debug)]
pub struct TreeEntry {
    pub path: String,
    pub kind: InputKind,
}

/// One step of copying a tree.
#[derive(Debug)]
pub enum CopyAction {
    /// Create this directory, and what it lacks above it.
    CreateDirectory { path: String },
    /// Create `parent`, then copy the file `from` to `to`.
    CopyFile { from: String, to: String, parent: String },
}

/// The mathematical content of a copy step.
pub enum CopyActionView {
    CreateDirectory { path: Seq<char> },
    CopyFile { from: Seq<char>, to: Seq<char>, parent: Seq<char> },
}

impl View for CopyAction {
    type V = CopyActionView;

    open spec fn view(&self) -> CopyActionView {
        match *self {
            CopyAction::CreateDirectory { path } => CopyActionView::CreateDirectory { path: path@ },
            CopyAction::CopyFile { from, to, parent } => CopyActionView::CopyFile {
                from: from@,
                to: to@,
                parent: parent@,
            },
        }
    }
}

/// The plan for copying a tree: the steps in walk order, and the fault that
/// cut the plan short, if one did.
#[derive(Debug)]
pub struct CopyPlan {
    pub actions: Vec<CopyAction>,
    pub failure: Option<PipelineError>,
}

/// The copy steps that one walked path contributes: a directory is
/// created, a file is copied unless it is a system file, anything else is
/// passed over.
pub open spec fn copy_steps(source: Seq<char>, destination: Seq<char>, entry: TreeEntry) -> Seq<
    CopyActionView,
> {
    match relative_to(entry.path@, source) {
        None => Seq::empty(),
        Some(rel) => match entry.kind {
            InputKind::Directory => seq![
                CopyActionView::CreateDirectory { path: joined(destination, rel) },
            ],
            InputKind::File => if is_system_file(catalogue_name(entry.path@)) {
                Seq::empty()
            } else {
                seq![
                    CopyActionView::CopyFile {
                        from: entry.path@,
                        to: joined(destination, rel),
                        parent: parent_of(joined(destination, rel)),
                    },
                ]
            },
            InputKind::Other => Seq::empty(),
        },
    }
}

/// The copy steps for the first `count` walked paths.
pub open spec fn tree_steps(source: Seq<char>, destination: Seq<char>, walk: Seq<TreeEntry>, count: nat) -> Seq<
    CopyActionView,
>
    decreases count,
{
    if count == 0 {
        seq![CopyActionView::CreateDirectory { path: destination }]
    } else {
        tree_steps(source, destination, walk, (count - 1) as nat) + copy_steps(
            source,
            destination,
            walk[count - 1],
        )
    }
}

/// The views of copy steps.
pub open spec fn step_views(actions: Seq<CopyAction>) -> Seq<CopyActionView> {
    actions.map_values(|a: CopyAction| a@)
}

/// The first walked path that does not lie within the source, if any.
pub open spec fn first_stray(source: Seq<char>, walk: Seq<TreeEntry>, count: nat) -> Option<nat>
    decreases count,
{
    if count == 0 {
        None
    } else {
        match first_stray(source, walk, (count - 1) as nat) {
            Some(i) => Some(i),
            None => if relative_to(walk[count - 1].path@, source) is None {
                Some((count - 1) as nat)
            } else {
                None
            },
        }
    }
}

/// What the converter did with a file.
#[derive(Debug)]
pub enum ConversionOutcome {
    /// It produced an artifact at `artifact_path`, whose content hash is
    /// `artifact_hash` where hashing it succeeded.
    Produced { artifact_path: String, artifact_hash: Option<String> },
    /// It succeeded without producing anything: the file is consumable as
    /// it is.
    Unchanged,
    /// It failed, with this error text.
    Failed { error: String },
}

/// What the caller observed of a file that exists.
#[derive(Debug)]
pub struct FoundFile {
    /// Its content hash, or the error text of hashing it.
    pub hash: Result<String, String>,
    /// What the converter did with it; `None` where it was not invoked.
    pub conversion: Option<ConversionOutcome>,
}

/// What the caller observed of the file of one record.
pub struct FileObservation {
    /// What the file system said about the record's path under the
    /// staging root.
    pub probe: PathProbe,
    /// What was found there; `None` where the file does not exist.
    pub found: Option<FoundFile>,
}

/// A record that failed, with its reason.
pub open spec fn failed(entry: ReportModelView, reason: Seq<char>) -> ReportModelView {
    ReportModelView { status: ProcessingStatus::Failed, skip_reason: Some(reason), ..entry }
}

/// A record after the converter was, or was not, invoked on its file at
/// `file_path`. An artifact replaces the record's working identity and hash
/// and converts it. A conversion without artifact converts it as it is. A
/// failed conversion fails it with the converter's text. A convertible file
/// on which the converter was not invoked stays as it is. A file that is
/// not convertible is converted if it is consumable as it is, and skipped
/// otherwise.
pub open spec fn converted_record(
    entry: ReportModelView,
    file_path: Seq<char>,
    root: Seq<char>,
    conversion: Option<ConversionOutcome>,
) -> ReportModelView {
    if convertible(file_path) {
        match conversion {
            Some(ConversionOutcome::Produced { artifact_path, artifact_hash }) => ReportModelView {
                file_name: if file_name_of(artifact_path@).len() == 0 {
                    entry.file_name
                } else {
                    file_name_of(artifact_path@)
                },
                relative_path: match relative_to(artifact_path@, root) {
                    Some(rel) => rel,
                    None => entry.relative_path,
                },
                converted_file_name: if file_name_of(artifact_path@).len() == 0 {
                    entry.converted_file_name
                } else {
                    Some(file_name_of(artifact_path@))
                },
                sha512: text_of(artifact_hash),
                status: ProcessingStatus::Converted,
                ..entry
            },
            Some(ConversionOutcome::Unchanged) => ReportModelView {
                status: ProcessingStatus::Converted,
                ..entry
            },
            Some(ConversionOutcome::Failed { error }) => failed(entry, error@),
            None => entry,
        }
    } else if llm_readable(file_path) {
        ReportModelView { status: ProcessingStatus::Converted, ..entry }
    } else {
        ReportModelView {
            status: ProcessingStatus::Skipped,
            skip_reason: Some("not consumable and not convertible"@),
            ..entry
        }
    }
}

/// A record after processing, given what was observed of its file: a path
/// that does not resolve within the root, a file that is not there and a
/// hash that fails each fail the record and end its processing; otherwise
/// the hash is recorded and the converter's outcome applied.
pub open spec fn processed_record(entry: ReportModelView, root: Seq<char>, observation: FileObservation) -> ReportModelView {
    match resolution(root, entry.original_relative_path, observation.probe) {
        None => failed(entry, "path validation failed"@),
        Some(file_path) => match observation.found {
            None => failed(entry, "file not found"@),
            Some(found) => match found.hash {
                Err(error) => failed(entry, error@),
                Ok(hash) => converted_record(
                    ReportModelView { sha512: Some(hash@), ..entry },
                    file_path,
                    root,
                    found.conversion,
                ),
            },
        },
    }
}

/// Why processing fails a record, if it does: a path that does not resolve
/// within the root is a traversal; a file that is not there is an I/O
/// failure; then come a failed hash and a failed conversion.
pub open spec fn failure_kind(entry: ReportModelView, root: Seq<char>, observation: FileObservation) -> Option<
    ErrorKind,
> {
    match resolution(root, entry.original_relative_path, observation.probe) {
        None => Some(ErrorKind::PathTraversal),
        Some(file_path) => match observation.found {
            None => Some(ErrorKind::IOFailure),
            Some(found) => match found.hash {
                Err(_) => Some(ErrorKind::HashFailure),
                Ok(_) => if convertible(file_path) && found.conversion matches Some(
                    ConversionOutcome::Failed { .. },
                ) {
                    Some(ErrorKind::ConversionFailure)
                } else {
                    None
                },
            },
        },
    }
}

/// The converter's outcome is consulted for a file only after it was hashed
/// and only if it is convertible.
pub open spec fn conversion_consulted(file_path: Seq<char>, hashed: bool) -> bool {
    hashed && convertible(file_path)
}

/// A record fails in processing exactly when there is a kind of failure for
/// it; a record that was not failed before and meets no failure is not
/// failed after.
pub proof fn lemma_failed_records_have_a_kind(entry: ReportModelView, root: Seq<char>, observation: FileObservation)
    ensures
        failure_kind(entry, root, observation) is Some ==> processed_record(
            entry,
            root,
            observation,
        ).status == ProcessingStatus::Failed,
        failure_kind(entry, root, observation) is None && entry.status != ProcessingStatus::Failed
            ==> processed_record(entry, root, observation).status != ProcessingStatus::Failed,
{
}

/// Where the converter's outcome is not consulted, it makes no difference
/// to the record: the caller need not invoke the converter at all.
pub proof fn lemma_conversion_is_consulted_late(
    entry: ReportModelView,
    root: Seq<char>,
    probe: PathProbe,
    hash: Result<String, String>,
    one: Option<ConversionOutcome>,
    other: Option<ConversionOutcome>,
)
    requires
        resolution(root, entry.original_relative_path, probe) matches Some(file_path)
            ==> !conversion_consulted(file_path, hash is Ok),
    ensures
        processed_record(
            entry,
            root,
            FileObservation { probe, found: Some(FoundFile { hash, conversion: one }) },
        ) == processed_record(
            entry,
            root,
            FileObservation { probe, found: Some(FoundFile { hash, conversion: other }) },
        ),
{
}

/// Processing never touches the original identity of a record, nor what
/// was catalogued of its file.
pub proof fn lemma_original_identity_kept(entry: ReportModelView, root: Seq<char>, observation: FileObservation)
    ensures
        processed_record(entry, root, observation).original_file_name == entry.original_file_name,
        processed_record(entry, root, observation).original_relative_path
            == entry.original_relative_path,
        processed_record(entry, root, observation).file_type == entry.file_type,
        processed_record(entry, root, observation).file_size_bytes == entry.file_size_bytes,
        processed_record(entry, root, observation).file_size_human == entry.file_size_human,
        processed_record(entry, root, observation).last_modified == entry.last_modified,
        processed_record(entry, root, observation).created_time == entry.created_time,
{
}

/// A record whose path does not resolve within the root is never hashed or
/// converted: it fails, whatever else was observed, and keeps its hash and
/// its working identity as they were.
pub proof fn lemma_unresolved_is_excluded(entry: ReportModelView, root: Seq<char>, observation: FileObservation)
    requires
        resolution(root, entry.original_relative_path, observation.probe) is None,
    ensures
        processed_record(entry, root, observation) == failed(entry, "path validation failed"@),
        processed_record(entry, root, observation).sha512 == entry.sha512,
        processed_record(entry, root, observation).converted_file_name == entry.converted_file_name,
{
}

/// The views of records.
pub open spec fn record_views(entries: Seq<ReportModel>) -> Seq<ReportModelView> {
    entries.map_values(|e: ReportModel| e@)
}

/// Isolation: in a run over a catalogue, the outcome of each record depends
/// on that record and on what was observed of its own file alone. Whatever
/// happens to one record (a failed conversion, a failed hash, a rejected
/// path), every other record comes out as if it had been processed alone.
pub proof fn lemma_failures_are_isolated(
    entries: Seq<ReportModelView>,
    root: Seq<char>,
    observations: Seq<FileObservation>,
    other_observations: Seq<FileObservation>,
    i: int,
)
    requires
        0 <= i < entries.len(),
        entries.len() == observations.len(),
        other_observations.len() == observations.len(),
        observations[i] == other_observations[i],
    ensures
        processed_all(entries, root, observations)[i] == processed_all(
            entries,
            root,
            other_observations,
        )[i],
        processed_all(entries, root, observations)[i] == processed_record(
            entries[i],
            root,
            observations[i],
        ),
{
}

/// The catalogue after every record with an observation has been
/// processed on it; records without one stay as they are.
pub open spec fn processed_all(
    entries: Seq<ReportModelView>,
    root: Seq<char>,
    observations: Seq<FileObservation>,
) -> Seq<ReportModelView> {
    Seq::new(
        entries.len(),
        |i: int|
            if i < observations.len() {
                processed_record(entries[i], root, observations[i])
            } else {
                entries[i]
            },
    )
}

/// Where the export and the report of a run go.
#[derive(Debug)]
pub struct OutputLayout {
    pub llm_output_path: String,
    pub report_path: String,
}

/// The name a staging tree lends to its output: its own name, `output`
/// where its path has none.
pub open spec fn output_base(working_path: Seq<char>) -> Seq<char> {
    own_name_of(working_path, "output"@)
}

/// The export directory of a run: the sibling of the staging tree named by
/// the tree and `_LLM`.
pub open spec fn export_directory(working_path: Seq<char>) -> Seq<char> {
    sibling_of(working_path, output_base(working_path) + "_LLM"@)
}

/// The report of a run: in the export directory, named by the tree.
pub open spec fn report_file(working_path: Seq<char>) -> Seq<char> {
    joined(export_directory(working_path), output_base(working_path) + "_LLM_file-report.xlsx"@)
}

/// Drives a run through its stages and processes the catalogue.
pub struct ProcessController {
    stage: PipelineStage,
    report_entries: Vec<ReportModel>,
}

impl ProcessController {
    /// The stage the run is in.
    pub closed spec fn stage(&self) -> PipelineStage {
        self.stage
    }

    /// The catalogue, in catalogue order.
    pub closed spec fn entries(&self) -> Seq<ReportModelView> {
        record_views(self.report_entries@)
    }

    /// A controller at the start of a run, with an empty catalogue.
    pub fn new() -> (r: Self)
        ensures
            r.stage() == PipelineStage::Preparing,
            r.entries() == Seq::<ReportModelView>::empty(),
    {
        let r = ProcessController { stage: PipelineStage::Preparing, report_entries: Vec::new() };
        assert(r.entries() =~= Seq::<ReportModelView>::empty());
        r
    }

    /// Starts a run: the catalogue is emptied and the first stage entered.
    pub fn start_processing(&mut self)
        ensures
            final(self).stage() == PipelineStage::Preparing,
            final(self).entries() == Seq::<ReportModelView>::empty(),
    {
        self.stage = PipelineStage::Preparing;
        self.report_entries = Vec::new();
        assert(self.entries() =~= Seq::<ReportModelView>::empty());
    }

    /// The stage the run is in.
    pub fn current_stage(&self) -> (r: PipelineStage)
        ensures
            r == self.stage(),
    {
        self.stage
    }

    /// Ends the current stage: well, and the next stage is entered; or with
    /// an unrecoverable fault, and the run has failed. A run that is done
    /// or has failed stays so.
    pub fn advance(&mut self, succeeded: bool) -> (r: PipelineStage)
        ensures
            r == stage_after(old(self).stage(), succeeded),
            final(self).stage() == r,
            final(self).entries() == old(self).entries(),
    {
        let next = match self.stage {
            PipelineStage::Done => PipelineStage::Done,
            PipelineStage::Failed => PipelineStage::Failed,
            PipelineStage::Preparing => if succeeded {
                PipelineStage::Decompressing
            } else {
                PipelineStage::Failed
            },
            PipelineStage::Decompressing => if succeeded {
                PipelineStage::Cataloging
            } else {
                PipelineStage::Failed
            },
            PipelineStage::Cataloging => if succeeded {
                PipelineStage::Processing
            } else {
                PipelineStage::Failed
            },
            PipelineStage::Processing => if succeeded {
                PipelineStage::Exporting
            } else {
                PipelineStage::Failed
            },
            PipelineStage::Exporting => if succeeded {
                PipelineStage::ReportGenerated
            } else {
                PipelineStage::Failed
            },
            PipelineStage::ReportGenerated => if succeeded {
                PipelineStage::Done
            } else {
                PipelineStage::Failed
            },
        };
        self.stage = next;
        next
    }

    /// A progress notification.
    pub fn emit_progress(current: usize, total: usize, task_category: &str) -> (r: ProgressUpdate)
        ensures
            r.current == current,
            r.total == total,
            r.task_category@ == task_category@,
    {
        ProgressUpdate { current, total, task_category: task_category.to_owned() }
    }

    /// How the staging tree is made from the input, for a given time stamp.
    /// A file with the extension `zip` is unpacked beside itself; a folder
    /// is copied beside itself; anything else passes through. Fails where
    /// an archive or a folder has no parent.
    pub fn workspace_plan(input_path: &str, kind: InputKind, stamp: &str) -> (r: Result<
        WorkspacePlan,
        PipelineError,
    >)
        ensures
            match r {
                Ok(WorkspacePlan::ExpandZip { archive, staging_path }) => kind == InputKind::File
                    && archive_kind_of(input_path@) == Some(ArchiveKind::Zip) && archive@
                    == input_path@ && expansion_target(input_path@, stamp@) == Some(staging_path@),
                Ok(WorkspacePlan::CopyTree { source, staging_path }) => kind == InputKind::Directory
                    && has_parent(input_path@) && source@ == input_path@ && staging_path@
                    == staging_copy_target(input_path@, stamp@),
                Ok(WorkspacePlan::UseAsIs { path }) => path@ == input_path@ && (kind
                    == InputKind::Other || (kind == InputKind::File && archive_kind_of(input_path@)
                    != Some(ArchiveKind::Zip))),
                Err(e) => !has_parent(input_path@) && e.kind == ErrorKind::IOFailure && (if kind
                    == InputKind::Directory {
                    e.message@ == "Input folder has no parent directory"@
                } else {
                    kind == InputKind::File && archive_kind_of(input_path@) == Some(
                        ArchiveKind::Zip,
                    ) && e.message@ == "ZIP file has no parent directory"@
                }),
            },
    {
        match kind {
            InputKind::File => {
                match archive_kind(input_path) {
                    Some(ArchiveKind::Zip) => {
                        let staging_path = DecompressionEngine::expansion_folder(input_path, stamp)?;
                        Ok(WorkspacePlan::ExpandZip { archive: input_path.to_owned(), staging_path })
                    },
                    _ => Ok(WorkspacePlan::UseAsIs { path: input_path.to_owned() }),
                }
            },
            InputKind::Directory => {
                if !path_has_parent(input_path) {
                    return Err(
                        PipelineError::new(
                            ErrorKind::IOFailure,
                            "Input folder has no parent directory".to_owned(),
                        ),
                    );
                }
                let name = own_name(input_path, "folder");
                let staging_name = stamped_name(name.as_str(), stamp);
                let staging_path = crate::paths::sibling(input_path, staging_name.as_str());
                Ok(WorkspacePlan::CopyTree { source: input_path.to_owned(), staging_path })
            },
            InputKind::Other => Ok(WorkspacePlan::UseAsIs { path: input_path.to_owned() }),
        }
    }

    /// How the staging tree is made from the input now: the plan for the
    /// time stamp of this moment.
    pub fn prepare_workspace(&self, input_path: &str, kind: InputKind) -> (r: Result<
        WorkspacePlan,
        PipelineError,
    >)
        ensures
            match r {
                Ok(WorkspacePlan::ExpandZip { archive, staging_path }) => kind == InputKind::File
                    && archive_kind_of(input_path@) == Some(ArchiveKind::Zip) && archive@
                    == input_path@ && exists|stamp: Seq<char>| #[trigger]
                    expansion_target(input_path@, stamp) == Some(staging_path@),
                Ok(WorkspacePlan::CopyTree { source, staging_path }) => kind == InputKind::Directory
                    && source@ == input_path@ && exists|stamp: Seq<char>|
                    staging_path@ == #[trigger] staging_copy_target(input_path@, stamp),
                Ok(WorkspacePlan::UseAsIs { path }) => path@ == input_path@ && (kind
                    == InputKind::Other || (kind == InputKind::File && archive_kind_of(input_path@)
                    != Some(ArchiveKind::Zip))),
                Err(e) => !has_parent(input_path@) && e.kind == ErrorKind::IOFailure,
            },
    {
        let stamp = local_stamp();
        Self::workspace_plan(input_path, kind, stamp.as_str())
    }

    /// Plans the copy of the tree at `src` to `dst`, from what a walk of
    /// `src` found: first `dst` itself, then, in walk order, every
    /// directory, and every file that is not a system file. A walked path
    /// that does not lie within `src` cuts the plan short with a fault.
    pub fn copy_directory_recursive(src: &str, dst: &str, walk: &Vec<TreeEntry>) -> (plan: CopyPlan)
        ensures
            match first_stray(src@, walk@, walk@.len()) {
                None => plan.failure is None && step_views(plan.actions@) == tree_steps(
                    src@,
                    dst@,
                    walk@,
                    walk@.len(),
                ),
                Some(i) => plan.failure matches Some(e) && e.kind == ErrorKind::IOFailure
                    && e.message@ == "Failed to get relative path for "@ + walk@[i as int].path@
                    && step_views(plan.actions@) == tree_steps(src@, dst@, walk@, i),
            },
    {
        let mut actions: Vec<CopyAction> = Vec::new();
        actions.push(CopyAction::CreateDirectory { path: dst.to_owned() });
        assert(step_views(actions@) =~= tree_steps(src@, dst@, walk@, 0));
        let mut i: usize = 0;
        while i < walk.len()
            invariant
                i <= walk.len(),
                first_stray(src@, walk@, i as nat) is None,
                step_views(actions@) == tree_steps(src@, dst@, walk@, i as nat),
            decreases walk.len() - i,
        {
            let entry = &walk[i];
            let ghost before = step_views(actions@);
            match crate::paths::strip_root(entry.path.as_str(), src) {
                None => {
                    proof {
                        lemma_first_stray_found(src@, walk@, i as nat, walk@.len());
                    }
                    let mut m = chars_of("Failed to get relative path for ");
                    push_str(&mut m, entry.path.as_str());
                    return CopyPlan {
                        actions,
                        failure: Some(PipelineError::new(ErrorKind::IOFailure, string_of(&m))),
                    };
                },
                Some(rel) => {
                    let target = crate::paths::join(dst, rel.as_str());
                    match entry.kind {
                        InputKind::Directory => {
                            actions.push(CopyAction::CreateDirectory { path: target });
                            assert(step_views(actions@) =~= before + copy_steps(src@, dst@, *entry));
                        },
                        InputKind::File => {
                            let own = crate::paths::file_name(entry.path.as_str());
                            let skip = if own.as_str().unicode_len() == 0 {
                                FileScanner::should_skip_file("unknown")
                            } else {
                                FileScanner::should_skip_file(own.as_str())
                            };
                            if !skip {
                                let parent = crate::paths::parent(target.as_str());
                                actions.push(
                                    CopyAction::CopyFile {
                                        from: entry.path.clone(),
                                        to: target,
                                        parent,
                                    },
                                );
                                assert(step_views(actions@) =~= before + copy_steps(
                                    src@,
                                    dst@,
                                    *entry,
                                ));
                            } else {
                                assert(step_views(actions@) =~= before + copy_steps(
                                    src@,
                                    dst@,
                                    *entry,
                                ));
                            }
                        },
                        InputKind::Other => {
                            assert(step_views(actions@) =~= before + copy_steps(src@, dst@, *entry));
                        },
                    }
                },
            }
            i += 1;
        }
        CopyPlan { actions, failure: None }
    }

    /// Takes the catalogue over from the scanner.
    pub fn scan_files(&mut self, entries: Vec<ReportModel>)
        ensures
            final(self).entries() == record_views(entries@),
            final(self).stage() == old(self).stage(),
    {
        self.report_entries = entries;
    }

    /// Applies what the converter did, or did not do, to the record of the
    /// file at `file_path`.
    pub fn process_single_file_conversion(
        entry: &mut ReportModel,
        file_path: &str,
        working_path: &str,
        conversion: &Option<ConversionOutcome>,
    )
        ensures
            final(entry)@ == converted_record(old(entry)@, file_path@, working_path@, *conversion),
    {
        let engine = ConversionEngine::new();
        if engine.is_convertible_file(file_path) {
            match conversion {
                Some(ConversionOutcome::Produced { artifact_path, artifact_hash }) => {
                    let name = crate::paths::file_name(artifact_path.as_str());
                    if name.as_str().unicode_len() > 0 {
                        entry.converted_file_name = Some(name.clone());
                        entry.file_name = name;
                    }
                    match crate::paths::strip_root(artifact_path.as_str(), working_path) {
                        Some(rel) => {
                            entry.relative_path = rel;
                        },
                        None => {},
                    }
                    entry.sha512 = copy_text(artifact_hash);
                    entry.status = ProcessingStatus::Converted;
                },
                Some(ConversionOutcome::Unchanged) => {
                    entry.status = ProcessingStatus::Converted;
                },
                Some(ConversionOutcome::Failed { error }) => {
                    entry.status = ProcessingStatus::Failed;
                    entry.skip_reason = Some(error.clone());
                },
                None => {},
            }
        } else if ReportModel::is_llm_readable(file_path) {
            entry.status = ProcessingStatus::Converted;
        } else {
            entry.status = ProcessingStatus::Skipped;
            entry.skip_reason = Some("not consumable and not convertible".to_owned());
        }
    }

    /// Processes one record on what was observed of its file.
    pub fn process_file_entry(entry: &mut ReportModel, working_path: &str, observation: &FileObservation)
        ensures
            final(entry)@ == processed_record(old(entry)@, working_path@, *observation),
    {
        let resolved = safe_resolve_path(
            working_path,
            entry.original_relative_path.as_str(),
            &observation.probe,
        );
        match resolved {
            Err(_) => {
                entry.status = ProcessingStatus::Failed;
                entry.skip_reason = Some("path validation failed".to_owned());
            },
            Ok(file_path) => match &observation.found {
                None => {
                    entry.status = ProcessingStatus::Failed;
                    entry.skip_reason = Some("file not found".to_owned());
                },
                Some(found) => match &found.hash {
                    Err(error) => {
                        entry.status = ProcessingStatus::Failed;
                        entry.skip_reason = Some(error.clone());
                    },
                    Ok(hash) => {
                        entry.sha512 = Some(hash.clone());
                        Self::process_single_file_conversion(
                            entry,
                            file_path.as_str(),
                            working_path,
                            &found.conversion,
                        );
                    },
                },
            },
        }
    }

    /// Whether the converter is to be invoked on the file at `file_path`,
    /// given how hashing it went.
    pub fn conversion_due(file_path: &str, hash: &Result<String, String>) -> (r: bool)
        ensures
            r == conversion_consulted(file_path@, *hash is Ok),
    {
        hash.is_ok() && ConversionEngine::new().is_convertible_file(file_path)
    }

    /// Why processing fails the record on this observation, if it does.
    pub fn classify_failure(entry: &ReportModel, working_path: &str, observation: &FileObservation) -> (r:
        Option<ErrorKind>)
        ensures
            r == failure_kind(entry@, working_path@, *observation),
    {
        let resolved = safe_resolve_path(
            working_path,
            entry.original_relative_path.as_str(),
            &observation.probe,
        );
        match resolved {
            Err(_) => Some(ErrorKind::PathTraversal),
            Ok(file_path) => match &observation.found {
                None => Some(ErrorKind::IOFailure),
                Some(found) => match &found.hash {
                    Err(_) => Some(ErrorKind::HashFailure),
                    Ok(_) => {
                        if ConversionEngine::new().is_convertible_file(file_path.as_str()) {
                            match &found.conversion {
                                Some(ConversionOutcome::Failed { .. }) => Some(
                                    ErrorKind::ConversionFailure,
                                ),
                                _ => None,
                            }
                        } else {
                            None
                        }
                    },
                },
            },
        }
    }

    /// Processes the catalogue, in catalogue order, on what was observed of
    /// each record's file. Every record comes out as `processed_record`
    /// says of it and of its own observation; no record's outcome depends
    /// on another's. Records without an observation stay as they are.
    pub fn process_file_entries(&mut self, working_path: &str, observations: &Vec<FileObservation>)
        ensures
            final(self).entries() == processed_all(old(self).entries(), working_path@, observations@),
            final(self).entries().len() == old(self).entries().len(),
            final(self).stage() == old(self).stage(),
    {
        let count: usize = if self.report_entries.len() <= observations.len() {
            self.report_entries.len()
        } else {
            observations.len()
        };
        let ghost before = self.entries();
        let mut done: Vec<ReportModel> = Vec::new();
        let mut i: usize = 0;
        while i < self.report_entries.len()
            invariant
                i <= self.report_entries.len(),
                self.entries() == before,
                self.stage() == old(self).stage(),
                before.len() == self.report_entries.len(),
                count <= observations.len(),
                count <= self.report_entries.len(),
                count == observations.len() || count == self.report_entries.len(),
                done@.len() == i,
                forall|k: int|
                    0 <= k < i ==> (#[trigger] done@[k])@ == processed_all(
                        before,
                        working_path@,
                        observations@,
                    )[k],
            decreases self.report_entries.len() - i,
        {
            let mut entry = self.report_entries[i].duplicate();
            assert(before[i as int] == self.report_entries@[i as int]@);
            if i < count {
                Self::process_file_entry(&mut entry, working_path, &observations[i]);
            }
            done.push(entry);
            i += 1;
        }
        self.report_entries = done;
        assert(self.entries() =~= processed_all(before, working_path@, observations@));
    }

    /// A record of the catalogue.
    pub fn entry(&self, index: usize) -> (r: Option<ReportModel>)
        ensures
            match r {
                Some(e) => index < self.entries().len() && e@ == self.entries()[index as int],
                None => index >= self.entries().len(),
            },
    {
        if index < self.report_entries.len() {
            let e = self.report_entries[index].duplicate();
            assert(self.entries()[index as int] == self.report_entries@[index as int]@);
            Some(e)
        } else {
            None
        }
    }

    /// The number of records in the catalogue.
    pub fn entry_count(&self) -> (r: usize)
        ensures
            r == self.entries().len(),
    {
        self.report_entries.len()
    }

    /// Where the export and the report of the run on the staging tree at
    /// `working_path` go. Fails where the staging tree has no parent.
    pub fn output_layout(working_path: &str) -> (r: Result<OutputLayout, PipelineError>)
        ensures
            match r {
                Ok(layout) => has_parent(working_path@) && layout.llm_output_path@
                    == export_directory(working_path@) && layout.report_path@ == report_file(
                    working_path@,
                ),
                Err(e) => !has_parent(working_path@) && e.kind == ErrorKind::IOFailure && e.message@
                    == "Working path has no parent directory"@,
            },
    {
        if !path_has_parent(working_path) {
            return Err(
                PipelineError::new(
                    ErrorKind::IOFailure,
                    "Working path has no parent directory".to_owned(),
                ),
            );
        }
        let name = own_name(working_path, "output");
        let mut folder = chars_of(name.as_str());
        push_str(&mut folder, "_LLM");
        let folder_text = string_of(&folder);
        let llm_output_path = crate::paths::sibling(working_path, folder_text.as_str());
        let mut report = chars_of(name.as_str());
        push_str(&mut report, "_LLM_file-report.xlsx");
        let report_text = string_of(&report);
        let report_path = crate::paths::join(llm_output_path.as_str(), report_text.as_str());
        Ok(OutputLayout { llm_output_path, report_path })
    }

    /// What the run hands back: the catalogue as it stands, and where the
    /// staging tree, the export and the report are.
    pub fn finalize_output(&self, working_path: &str) -> (r: Result<ProcessingResult, PipelineError>)
        ensures
            match r {
                Ok(result) => has_parent(working_path@) && record_views(result.entries@)
                    == self.entries() && result.staging_path@ == working_path@
                    && result.llm_output_path@ == export_directory(working_path@)
                    && result.report_path@ == report_file(working_path@),
                Err(e) => !has_parent(working_path@) && e.kind == ErrorKind::IOFailure,
            },
    {
        let layout = Self::output_layout(working_path)?;
        let mut entries: Vec<ReportModel> = Vec::new();
        let mut i: usize = 0;
        while i < self.report_entries.len()
            invariant
                i <= self.report_entries.len(),
                entries@.len() == i,
                forall|k: int| 0 <= k < i ==> (#[trigger] entries@[k])@ == self.report_entries@[k]@,
            decreases self.report_entries.len() - i,
        {
            entries.push(self.report_entries[i].duplicate());
            i += 1;
        }
        assert(record_views(entries@) =~= self.entries());
        Ok(
            ProcessingResult {
                entries,
                staging_path: working_path.to_owned(),
                llm_output_path: layout.llm_output_path,
                report_path: layout.report_path,
            },
        )
    }
}

/// A stray path among the first `count` stays the first stray of any longer
/// walk.
proof fn lemma_first_stray_found(source: Seq<char>, walk: Seq<TreeEntry>, at: nat, count: nat)
    requires
        at < count,
        first_stray(source, walk, at) is None,
        relative_to(walk[at as int].path@, source) is None,
    ensures
        first_stray(source, walk, count) == Some(at),
    decreases count,
{
    if count > at + 1 {
        lemma_first_stray_found(source, walk, at, (count - 1) as nat);
    }
}

} // verus!
