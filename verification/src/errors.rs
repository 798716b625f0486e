//! The failures the pipeline tells apart.

use vstd::prelude::*;

verus! {

/// The kind of a failure.
#[derive(Debug, Clone, Copy, PartialEq, Eq, Structural)]
pub enum ErrorKind {
    /// A name resolved outside its root. Always neutralised, never fatal.
    PathTraversal,
    /// The file system refused a read, a write or a permission.
    IOFailure,
    /// An archive is corrupt or cannot be read.
    ArchiveFormatError,
    /// The converter reported an error.
    ConversionFailure,
    /// A file could not be read for hashing.
    HashFailure,
}

/// The kinds of failure that end a run when they strike a whole stage.
pub open spec fn stage_fatal(kind: ErrorKind) -> bool {
    kind == ErrorKind::IOFailure || kind == ErrorKind::ArchiveFormatError
}

/// A failure: its kind, and a message for people.
#[derive(Debug)]
pub struct PipelineError {
    pub kind: ErrorKind,
    pub message: String,
}

impl PipelineError {
    /// A failure of the given kind.
    pub fn new(kind: ErrorKind, message: String) -> (r: Self)
        ensures
            r.kind == kind,
            r.message@ == message@,
    {
        PipelineError { kind, message }
    }

    /// Whether a failure of this kind ends the run when it strikes a whole
    /// stage: an I/O failure or an unreadable archive does. Failures of a
    /// single file never end the run.
    pub fn is_fatal_for_stage(&self) -> (r: bool)
        ensures
            r == stage_fatal(self.kind),
    {
        self.kind == ErrorKind::IOFailure || self.kind == ErrorKind::ArchiveFormatError
    }
}

} // verus!
