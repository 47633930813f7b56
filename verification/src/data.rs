//! Identity handling for stored objects.
//!
//! Objects that may be stored persistently carry an optional id.  The
//! [`DataItem`] trait exposes it: the id can be read once set, and set only
//! once; both misuses are reported as data-access failures.

use vstd::prelude::*;
use crate::currency::CurrencyError;

verus! {

/// Errors of the data layer that stores and retrieves objects.
#[derive(Debug)]
pub enum DataError {
    /// A database transaction failed.
    DatabaseError(String),
    /// Serializing or deserializing an object failed.
    SerializeError(String),
    /// Access to the store failed, for example reading the id of a
    /// transient object or overwriting the id of a persistent one.
    DataAccessFailure(String),
    /// The requested object is not in the store.
    NotFound(String),
    /// The asset data is invalid.
    InvalidAsset(String),
    /// The transaction type is invalid.
    InvalidTransaction(String),
    /// A currency was invalid.
    InvalidCurrency(CurrencyError),
    /// A date or time could not be interpreted.
    InvalidDateTime(String),
}

/// An object with an optional persistent id.
///
/// `id_of` is the object's current id in the model.  `get_id` succeeds
/// exactly when an id is present; `set_id` succeeds exactly when none is,
/// and then installs the given one.  An id, once set, is immutable.
pub trait DataItem: Sized {
    /// The current id of the object, if one has been set.
    spec fn id_of(&self) -> Option<int>;

    /// The object with `id` installed and everything else unchanged.
    spec fn with_id(&self, id: i32) -> Self;

    /// Read the id; fails for a transient object that never got one.
    fn get_id(&self) -> (r: Result<i32, DataError>)
        ensures
            r is Ok <==> self.id_of() is Some,
            r is Ok ==> Some(r->Ok_0 as int) == self.id_of(),
            r is Err ==> r->Err_0 is DataAccessFailure,
    ;

    /// Install the id; fails if one has already been set, leaving the
    /// object unchanged.
    fn set_id(&mut self, id: i32) -> (r: Result<(), DataError>)
        ensures
            r is Ok <==> old(self).id_of() is None,
            r is Ok ==> final (self).id_of() == Some(id as int) && *final (self) == old(
                self,
            ).with_id(id),
            r is Err ==> *final (self) == *old(self) && r->Err_0 is DataAccessFailure,
    ;
}

} // verus!
