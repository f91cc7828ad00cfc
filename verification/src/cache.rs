//! The cache: the database of what is kept about cached objects.
use vstd::prelude::*;

verus! {

/// The cache, over a database of object metadata.
pub struct Cache<D> {
    database: D,
}

impl<D> Cache<D> {
    /// The database.
    pub closed spec fn db(&self) -> D {
        self.database
    }

    /// A cache over a database.
    pub fn new(db: D) -> (cache: Cache<D>)
        ensures
            cache.db() == db,
    {
        Cache { database: db }
    }

    /// The database.
    pub fn database(&self) -> (db: &D)
        ensures
            *db == self.db(),
    {
        &self.database
    }
}

} // verus!
