//! The errors the store surfaces to its callers.

use vstd::prelude::*;

use crate::addr::ChunkAddress;

verus! {

/// A failure of one store operation. Every error carries the offending path
/// or address; nothing is retried or suppressed.
#[derive(Clone, Debug)]
pub enum StoreError {
    /// Directory creation, file creation, writing or reading failed at the
    /// given path.
    Io { path: String, cause: String },
    /// A read was requested for an address with no corresponding file.
    NotFound { address: ChunkAddress },
    /// Enumerating the stored files failed.
    Listing,
}

impl StoreError {
    /// Whether the error reports a missing chunk rather than an I/O fault.
    pub fn is_not_found(&self) -> (r: bool)
        ensures
            r == (self is NotFound),
    {
        match self {
            StoreError::NotFound { .. } => true,
            _ => false,
        }
    }
}

} // verus!
