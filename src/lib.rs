//! A local-first task store with last-write-wins replication against a
//! CouchDB-style remote document store.
use vstd::prelude::*;

pub mod text;
pub mod task;
pub mod select;
mod clock;
pub mod store;
pub mod settings;
pub mod sync;
pub mod remote;
pub mod laws;
pub mod vault;

pub use remote::{ChangeBatch, ChangeEntry, PutOutcome, RemoteDoc};
pub use settings::{RemoteTarget, SyncSettings};
pub use store::{Database, Direction, StoreError, SyncCursor};
pub use sync::{StartDecision, SyncManager, SyncState, SyncStatus};
pub use task::Task;
pub use vault::{EncryptedStorage, VaultError};

verus! {

} // verus!
