//! An embedded key-value store: an in-memory index fed by an append-only log
//! of text records, with a recovery protocol that rebuilds the index from the
//! log at startup and rolls back on failure.

pub mod codec;
pub mod error;
pub mod index;
pub mod recovery;
pub mod store;

pub use codec::{decode, encode, Command, CommandView};
pub use error::{ErrorView, KvStoreError};
pub use index::index_of;
pub use recovery::{quarantine_path, Action, Event, Phase, Recovery};
pub use store::KvStore;
