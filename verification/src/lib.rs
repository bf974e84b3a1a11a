//! The synchronisation core of a note-taking application: two installations
//! exchange the changes of their tables over the local network, without a
//! server between them.
//!
//! Every change carries a version from one counter that all tables share.
//! A peer pulls a table's changes page by page in ascending order of version
//! and pushes its own; of two writes to one record the later one stays.
//!
//! - [`registry`]: which tables are replicated, and their columns.
//! - [`change`]: a change and its payload.
//! - [`version`]: the version counter.
//! - [`applier`]: whether an incoming change is written, and as which
//!   statement.
//! - [`loader`]: the pages of changes, and the backfill of versions.
//! - [`protocol`]: the three requests and the check of the shared secret.
//! - [`store`], [`statement`], [`clock`]: the store, what is said to it, and
//!   the time.
//! - [`model`], [`laws`]: a table as mathematics, and what is proved of it.

pub mod applier;
pub mod change;
pub mod clock;
pub mod error;
pub mod laws;
pub mod loader;
pub mod model;
pub mod protocol;
pub mod registry;
pub mod statement;
pub mod store;
pub mod text;
pub mod version;

pub use applier::apply_table_change;
pub use change::{FieldValue, Payload, SyncChange, SyncOp};
pub use clock::now_iso;
pub use error::SyncError;
pub use loader::{
    load_table_changes, load_table_metadata, max_version_all_tables, max_version_for_table,
};
pub use registry::{get_table_config, TableConfig};
pub use store::Store;
pub use version::VersionCounter;
