//! Why an operation on the store failed.

use vstd::prelude::*;

verus! {

/// A failure that ends the operation on one change or one request.
#[derive(Clone, Debug, PartialEq, Eq)]
pub enum SyncError {
    /// The store refused a statement. The text is the store's own.
    Store(String),
    /// A column of a row did not hold the kind of value that it must hold.
    /// The number is the column's place in the row.
    InvalidColumnType(usize),
    /// An upsert names no value for the column `uuid`.
    InvalidQuery,
    /// No version number is left to assign.
    VersionOverflow,
}

} // verus!
