//! A key-value view of users and their letters: the capacity rule lives
//! here, while (de)serialisation and the backing store are the caller's
//! concern, reached through the [`Database`] interface.

pub mod model;

use vstd::prelude::*;

verus! {

/// A store of values of type `T`, keyed by a user identifier. Implemented by
/// callers over whatever backing store they use.
pub trait Database<T> {
    type DbError;

    fn get(&self, user_id: &str) -> Result<T, Self::DbError>;

    fn save(&self, user: &T) -> Result<(), Self::DbError>;
}

} // verus!
