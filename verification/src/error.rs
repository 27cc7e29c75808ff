//! The error taxonomy of the whole pipeline. The four file errors belong to
//! the I/O boundary and are produced by the caller that performs the I/O;
//! the remaining variants are produced by the library itself. Every error is
//! terminal for the invocation: no retries, no partial output.

use vstd::prelude::*;

verus! {

/// Everything that can go wrong during an export run.
#[derive(Clone, Copy, Debug, PartialEq, Eq)]
pub enum ErrorKind {
    /// A file could not be opened for reading.
    FileOpenError,
    /// A file could not be read to the end.
    FileReadError,
    /// An output file could not be created.
    FileCreationError,
    /// An output file could not be written.
    FileWriteError,
    /// An external typesetting tool failed to run.
    ExternalToolFailed,
    /// The selector matched no block name, not even as a prefix.
    CodeBlockNotFound,
    /// The selector matched two or more exact names, or, with no exact match,
    /// two or more prefix candidates.
    AmbiguousCodeBlockName,
    /// The dependency closure of the selection cannot be emitted: a true
    /// cycle, or a dependency name with no matching emittable block.
    UnsatisfiableDependencies,
    /// A document includes itself, directly or through other documents.
    RecursiveInclusion,
}

impl ErrorKind {
    /// A fixed, human-readable description of the error; the caller knows
    /// which file was concerned and reports it alongside.
    pub fn message(&self) -> (m: &'static str)
        ensures
            m@ == match self {
                ErrorKind::FileOpenError => "file could not be opened"@,
                ErrorKind::FileReadError => "file could not be read"@,
                ErrorKind::FileCreationError => "file could not be created"@,
                ErrorKind::FileWriteError => "file could not be written"@,
                ErrorKind::ExternalToolFailed => "calling an external tool failed"@,
                ErrorKind::CodeBlockNotFound => "specified code block not found"@,
                ErrorKind::AmbiguousCodeBlockName => "multiple code blocks match given name"@,
                ErrorKind::UnsatisfiableDependencies => "dependencies can't be satisfied"@,
                ErrorKind::RecursiveInclusion => "document includes itself"@,
            },
    {
        match self {
            ErrorKind::FileOpenError => "file could not be opened",
            ErrorKind::FileReadError => "file could not be read",
            ErrorKind::FileCreationError => "file could not be created",
            ErrorKind::FileWriteError => "file could not be written",
            ErrorKind::ExternalToolFailed => "calling an external tool failed",
            ErrorKind::CodeBlockNotFound => "specified code block not found",
            ErrorKind::AmbiguousCodeBlockName => "multiple code blocks match given name",
            ErrorKind::UnsatisfiableDependencies => "dependencies can't be satisfied",
            ErrorKind::RecursiveInclusion => "document includes itself",
        }
    }
}

} // verus!
