//! The typed, cause-chained errors every stage of a lookup reports.

use vstd::prelude::*;

use crate::version::Version;

verus! {

/// The failure categories a package lookup can report.  Every stage of the
/// pipeline maps its failures onto one of these kinds; the payload carries
/// the offending input so the boundary can present it.
#[derive(Debug)]
pub enum ErrorKind {
    /// A network or I/O failure reported by the driver of the pipeline.
    Transport(String),
    /// A document could not be deserialized or decoded.
    Deserialization(String),
    /// An archive stream was malformed or an entry could not be read.
    ArchiveFormat(String),
    /// No run of word characters was found where a package name was expected.
    PackageNameRegexFailed(String),
    /// A raw version tag did not begin with a numeric component.
    NormalizeVersionStringRegexFailed(String),
    /// No entry with the required suffix exists in the archive.
    ArchiveFileNotFound(String),
    /// The requested version is not a key of the release index.
    VersionDoesntExist(String, Version),
    /// The requested version has no artifact of a selectable kind.
    NoReleaseForVersion(String, Version),
    /// The release index is empty, or could not be built at all.
    PackageHasNoReleasedVersions(String),
}

/// A typed error carrying an optional chained cause, so a top-level failure
/// keeps the full chain of underlying failures inspectable.
#[derive(Debug)]
pub struct Error {
    pub kind: ErrorKind,
    pub cause: Option<Box<Error>>,
}

impl Error {
    /// An error of the given kind with no underlying cause.
    pub fn new(kind: ErrorKind) -> (r: Error)
        ensures
            r.kind == kind,
            r.cause is None,
    {
        Error { kind, cause: None }
    }

    /// An error of the given kind wrapping the failure that caused it.
    pub fn with_cause(kind: ErrorKind, cause: Error) -> (r: Error)
        ensures
            r.kind == kind,
            r.cause matches Some(c) && c == cause,
    {
        Error { kind, cause: Some(Box::new(cause)) }
    }
}

} // verus!
