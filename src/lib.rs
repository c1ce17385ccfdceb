//! A small Maven-style artifact repository: coordinate resolution, write
//! planning with overwrite protection, version-index generation and a
//! credential gate, each stated and proved with Verus.
//!
//! The service decides and the host acts: the host lists directories,
//! reads and writes files, and hands what it saw back to the service.

pub mod authentication;
pub mod conf;
pub mod error;
pub mod index;
pub mod maven;
pub mod metadata;
pub mod repo;
pub mod sort;
pub mod store;
pub mod text;

pub use authentication::{credential_from_decoded, extract_authentication_info, split_once};
pub use conf::{Conf, User};
pub use error::Error;
pub use index::{build_metadata, select_versions, DirEntry, MetadataLocation};
pub use maven::{extract_artifact_from_url, Artifact};
pub use metadata::{
    serialize_xml, ArtifactId, GroupId, LastUpdated, Latest, Metadata, Release, Timestamp, Version,
    Versioning, Versions,
};
pub use repo::RepoService;
pub use sort::sort_lexical;
pub use store::{complete_write, WriteOutcome, WritePlan};
