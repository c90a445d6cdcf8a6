//! The error taxonomy of the update pipeline.

use vstd::prelude::*;

verus! {

/// Everything that can go wrong while updating one plugin. Each variant
/// carries context for diagnostics: the URL, the manifest path, or the
/// archive target.
#[derive(Debug)]
pub enum UpdateError {
    /// Transport failure or a non-2xx response status.
    Network(String),
    /// The response did not declare a JSON content type.
    ContentType(String),
    /// The response body is not a JSON document.
    Parse(String),
    /// A path descriptor found no value; carries which path failed.
    PathNotFound(String),
    /// The resolved value is not a JSON string.
    WrongType(String),
    /// A version string did not parse.
    VersionFormat(String),
    /// The manifest held no self-closing `Identity` element with a
    /// `Version` attribute.
    ManifestFormat(String),
    /// The archive bytes are not a zip archive.
    ArchiveFormat(String),
    /// A filesystem fault other than the manifest being absent.
    Io(String),
}

/// The variant of an error, without its context.
#[derive(Debug, Clone, Copy, PartialEq, Eq, Structural)]
pub enum ErrorKind {
    Network,
    ContentType,
    Parse,
    PathNotFound,
    WrongType,
    VersionFormat,
    ManifestFormat,
    ArchiveFormat,
    Io,
}

pub open spec fn kind_of(e: UpdateError) -> ErrorKind {
    match e {
        UpdateError::Network(_) => ErrorKind::Network,
        UpdateError::ContentType(_) => ErrorKind::ContentType,
        UpdateError::Parse(_) => ErrorKind::Parse,
        UpdateError::PathNotFound(_) => ErrorKind::PathNotFound,
        UpdateError::WrongType(_) => ErrorKind::WrongType,
        UpdateError::VersionFormat(_) => ErrorKind::VersionFormat,
        UpdateError::ManifestFormat(_) => ErrorKind::ManifestFormat,
        UpdateError::ArchiveFormat(_) => ErrorKind::ArchiveFormat,
        UpdateError::Io(_) => ErrorKind::Io,
    }
}

impl UpdateError {
    /// The variant of this error, for callers that sort by kind.
    pub fn kind(&self) -> (r: ErrorKind)
        ensures
            r == kind_of(*self),
    {
        match self {
            UpdateError::Network(_) => ErrorKind::Network,
            UpdateError::ContentType(_) => ErrorKind::ContentType,
            UpdateError::Parse(_) => ErrorKind::Parse,
            UpdateError::PathNotFound(_) => ErrorKind::PathNotFound,
            UpdateError::WrongType(_) => ErrorKind::WrongType,
            UpdateError::VersionFormat(_) => ErrorKind::VersionFormat,
            UpdateError::ManifestFormat(_) => ErrorKind::ManifestFormat,
            UpdateError::ArchiveFormat(_) => ErrorKind::ArchiveFormat,
            UpdateError::Io(_) => ErrorKind::Io,
        }
    }

    /// The context the error carries.
    pub fn context(&self) -> (r: &String)
        ensures
            r@ == spec_context(*self),
    {
        match self {
            UpdateError::Network(s) => s,
            UpdateError::ContentType(s) => s,
            UpdateError::Parse(s) => s,
            UpdateError::PathNotFound(s) => s,
            UpdateError::WrongType(s) => s,
            UpdateError::VersionFormat(s) => s,
            UpdateError::ManifestFormat(s) => s,
            UpdateError::ArchiveFormat(s) => s,
            UpdateError::Io(s) => s,
        }
    }
}

pub open spec fn spec_context(e: UpdateError) -> Seq<char> {
    match e {
        UpdateError::Network(s) => s@,
        UpdateError::ContentType(s) => s@,
        UpdateError::Parse(s) => s@,
        UpdateError::PathNotFound(s) => s@,
        UpdateError::WrongType(s) => s@,
        UpdateError::VersionFormat(s) => s@,
        UpdateError::ManifestFormat(s) => s@,
        UpdateError::ArchiveFormat(s) => s@,
        UpdateError::Io(s) => s@,
    }
}

} // verus!
