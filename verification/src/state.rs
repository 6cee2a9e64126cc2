//! Who is signed in, as the running process knows it.
//!
//! The stored record of who is signed in ([`crate::db::DatabaseView::app_session`])
//! survives a restart; this value does not, and is filled from the record
//! when the process starts. Requests are authorized by this value alone.

use crate::error::ServiceError;
use vstd::prelude::*;

verus! {

/// The identity that is signed in, if any.
#[derive(Debug, Clone, Copy)]
pub struct AppState {
    pub current_user_id: Option<i64>,
}

impl Default for AppState {
    fn default() -> (state: Self)
        ensures
            state.current_user_id is None,
    {
        AppState { current_user_id: None }
    }
}

impl AppState {
    /// A state in which nobody is signed in.
    pub fn new() -> (state: Self)
        ensures
            state.current_user_id is None,
    {
        AppState { current_user_id: None }
    }

    /// The identity that is signed in, if any.
    pub fn get(&self) -> (id: Option<i64>)
        ensures
            id == self.current_user_id,
    {
        self.current_user_id
    }

    /// Records `user_id` as signed in.
    pub fn set(&mut self, user_id: i64)
        ensures
            final(self).current_user_id == Some(user_id),
    {
        self.current_user_id = Some(user_id);
    }

    /// Records that nobody is signed in.
    pub fn clear(&mut self)
        ensures
            final(self).current_user_id is None,
    {
        self.current_user_id = None;
    }

    /// The identity on whose behalf a request runs. Fails with
    /// `NotAuthenticated` when nobody is signed in.
    pub fn require(&self) -> (r: Result<i64, ServiceError>)
        ensures
            r == match self.current_user_id {
                Some(id) => Ok::<i64, ServiceError>(id),
                None => Err::<i64, ServiceError>(ServiceError::NotAuthenticated),
            },
    {
        match self.current_user_id {
            Some(id) => Ok(id),
            None => Err(ServiceError::NotAuthenticated),
        }
    }

    /// Fills the state from the stored record of who is signed in, as found
    /// when the process starts. With no record, nobody is signed in.
    pub fn restore(&mut self, record: Option<i64>)
        ensures
            final(self).current_user_id == record,
    {
        self.current_user_id = record;
    }

    /// Concludes a sign-in of `user_id` once the storage has been asked to
    /// record it; `recorded` says whether it did.
    ///
    /// Where it did, `user_id` is signed in. Where it did not, the state is
    /// left as it was and the call fails with `StorageFailure`: nobody is
    /// signed in whose record would be missing after a restart.
    pub fn settle_login(&mut self, user_id: i64, recorded: bool) -> (r: Result<(), ServiceError>)
        ensures
            recorded ==> r is Ok && final(self).current_user_id == Some(user_id),
            !recorded ==> r == Err::<(), ServiceError>(ServiceError::StorageFailure) && *final(self)
                == *old(self),
    {
        if recorded {
            self.current_user_id = Some(user_id);
            Ok(())
        } else {
            Err(ServiceError::StorageFailure)
        }
    }

    /// Concludes a sign-out once the storage has been asked to remove the
    /// record; `removed` says whether it did.
    ///
    /// Nobody is signed in afterwards, whatever the storage did. Where it did
    /// not remove the record, the call fails with `StorageFailure`.
    pub fn settle_logout(&mut self, removed: bool) -> (r: Result<(), ServiceError>)
        ensures
            final(self).current_user_id is None,
            removed ==> r is Ok,
            !removed ==> r == Err::<(), ServiceError>(ServiceError::StorageFailure),
    {
        self.current_user_id = None;
        if removed {
            Ok(())
        } else {
            Err(ServiceError::StorageFailure)
        }
    }
}

} // verus!
