use vstd::prelude::*;

verus! {

/// Why an import run stopped.
#[derive(Clone, Copy, Debug, PartialEq, Eq, Structural)]
pub enum ImportError {
    /// The configured network type or suffix is malformed.
    InvalidConfiguration,
    /// The peer reports another network than the one configured.
    NetworkMismatch,
    /// The peer has not caught up with the chain yet.
    NotSynced,
    /// The generation pointer or the directory it names is missing.
    StoreNotFound,
    /// The target already carries a metadata row.
    AlreadyInitialized,
    /// The consensus store could not be read or holds a malformed record.
    ExtractionFailure,
    /// A batch could not be staged or published.
    LoadFailure,
}

} // verus!
