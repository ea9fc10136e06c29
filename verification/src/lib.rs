//! A minimal pastebin core: a verified record codec and a durable paste
//! store over a key-value backing engine.

mod backing;
pub mod record;
pub mod store;

pub use record::Paste;
pub use record::PasteModel;
pub use store::Store;

use vstd::prelude::*;

verus! {

/// The error taxonomy of the paste store.
#[derive(Debug, Clone, Copy, PartialEq, Eq, Structural)]
pub enum StoreError {
    /// The requested identifier is absent from the store.
    NotFound,
    /// Stored bytes for an existing key cannot be decoded.
    CorruptRecord,
    /// The backing engine could not complete an operation.
    BackingStoreUnavailable,
}

} // verus!
