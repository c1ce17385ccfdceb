//! The error kinds of the repository service.

use vstd::prelude::*;

verus! {

/// One failure of a repository operation; the text names the request
/// or the fault.
#[derive(Debug, Clone)]
pub enum Error {
    /// A filesystem fault outside the kinds below (permission, disk, I/O).
    InvalidConfiguration(String),
    /// The path would escape the repository root.
    InvalidCoordinate(String),
    /// The path does not split into the expected segments.
    MalformedCoordinate(String),
    /// The requested artifact does not exist.
    NotFound(String),
    /// A write-once artifact already exists.
    ArtifactOverwrite(String),
    /// The write target has no file extension.
    InvalidArtifactPath(String),
    /// The version directory could not be listed or holds no version.
    MetadataGenerationFailed(String),
    /// The transport could not deliver the request body.
    RequestBodyExtractionFailed(String),
    /// A decoded credential matched no configured user.
    AuthenticationError,
}

} // verus!
