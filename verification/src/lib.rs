//! A local content-addressed chunk store core.
//!
//! Immutable binary chunks are keyed by a fixed-width content hash. Each
//! address maps deterministically to a filesystem path: a configurable store
//! root, a chain of single-character directories taken from the address's
//! leading bits, and a filename holding the address's hexadecimal encoding.
//! On top of that mapping the crate provides the pure parts of writing,
//! reading, enumerating and prefix-filtering stored chunks, together with
//! proofs that the mapping is deterministic and injective and that the
//! filtering honours the prefix semantics.

pub mod addr;
pub mod error;
pub mod filter;
pub mod model;
pub mod paths;

pub use addr::Chunk;
pub use addr::ChunkAddress;
pub use addr::Prefix;
pub use error::StoreError;
pub use filter::list_files_without_prefix;
pub use paths::StoreConfig;
pub use paths::address_to_filepath;
