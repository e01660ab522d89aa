//! Keeping values in a key-value database.

use vstd::prelude::*;

verus! {

/// A value kept in a database under an id.
pub trait DatabaseValueID<ID> {
    /// The id of the value.
    fn id(&self) -> ID;
}

/// A subset of a key-value database (a column, usually).
pub trait KeyValueDBStore {
    /// The name of this store.
    fn name(&self) -> &str;

    /// The column that this store is kept in.
    fn db_col(&self) -> u32;

    /// The number of database columns.
    fn n_db_cols() -> u32;
}

} // verus!
