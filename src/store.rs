//! Write plans for the backing store, and the store as a map from path to
//! bytes.
//!
//! The service decides; the host performs the plan on the filesystem and
//! reports what happened. A plan that does not permit overwriting is meant
//! to be carried out with one create-exclusive operation, so that two
//! writers of one path cannot both succeed.

use vstd::prelude::*;

use crate::error::Error;

verus! {

/// The backing store as a key-to-blob map.
pub type StoreModel = Map<Seq<char>, Seq<u8>>;

/// One write, ready to be performed.
#[derive(Debug, Clone)]
pub struct WritePlan {
    /// The request path, kept for error reports.
    pub url: String,
    /// The file to write.
    pub path: String,
    /// The directory that holds it, created with its parents when missing.
    pub parent: String,
    pub data: Vec<u8>,
    /// Replace an existing file (metadata) rather than fail (artifacts).
    pub overwrite: bool,
}

/// What the host reports after performing a plan.
#[derive(Debug, Clone)]
pub enum WriteOutcome {
    Written,
    /// The file existed and the plan did not permit replacing it.
    AlreadyExists,
    /// Any other filesystem fault.
    Failed(String),
}

/// The store after writing `data` at `path`, or `None` when the write is
/// refused because the path exists and may not be replaced.
pub open spec fn write_effect(store: StoreModel, path: Seq<char>, data: Seq<u8>, overwrite: bool) -> Option<StoreModel> {
    if !overwrite && store.contains_key(path) {
        None
    } else {
        Some(store.insert(path, data))
    }
}

/// What a read of `path` returns.
pub open spec fn read_effect(store: StoreModel, path: Seq<char>) -> Option<Seq<u8>> {
    if store.contains_key(path) {
        Some(store[path])
    } else {
        None
    }
}

impl WritePlan {
    /// The store after this plan is performed on `store`.
    pub open spec fn effect(self, store: StoreModel) -> Option<StoreModel> {
        write_effect(store, self.path@, self.data@, self.overwrite)
    }

    /// The outcome the host reports when it performs this plan on `store`
    /// without a fault.
    pub open spec fn expected_outcome(self, store: StoreModel) -> WriteOutcome {
        if self.effect(store) is Some {
            WriteOutcome::Written
        } else {
            WriteOutcome::AlreadyExists
        }
    }
}

/// Turns the host's report on a performed plan into the operation's result.
pub fn complete_write(plan: &WritePlan, outcome: WriteOutcome) -> (r: Result<(), Error>)
    ensures
        r is Ok <==> outcome is Written,
        outcome is AlreadyExists ==> (r matches Err(Error::ArtifactOverwrite(u)) && u@ == plan.url@),
        outcome matches WriteOutcome::Failed(m) ==> (r matches Err(Error::InvalidConfiguration(e)) && e@ == m@),
{
    match outcome {
        WriteOutcome::Written => Ok(()),
        WriteOutcome::AlreadyExists => Err(Error::ArtifactOverwrite(plan.url.clone())),
        WriteOutcome::Failed(m) => Err(Error::InvalidConfiguration(m)),
    }
}

} // verus!
