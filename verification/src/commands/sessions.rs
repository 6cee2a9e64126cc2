//! The session timer of whoever is signed in.

use crate::db::Database;
use crate::error::{ServiceError, fails_with};
use crate::models::session::{ActiveSessionResponse, FinishedSessionResponse, texts};
use crate::services::session_service;
use crate::services::session_service::{finished_views, latest_first, started_view, tags_of};
use crate::state::AppState;
use vstd::prelude::*;

verus! {

/// The running session of whoever is signed in, if there is one.
pub fn get_active_session(state: &AppState, db: &Database) -> (r: Result<
    Option<ActiveSessionResponse>,
    ServiceError,
>)
    requires
        db.wf(),
    ensures
        match state.current_user_id {
            None => fails_with(r, ServiceError::NotAuthenticated),
            Some(user_id) => match r {
                Ok(Some(session)) => exists|i: int|
                    db@.latest_running_at(user_id, i) && session@ == (
                    #[trigger] db@.sessions[i]).active(),
                Ok(None) => !db@.has_running(user_id),
                Err(_) => false,
            },
        },
{
    let user_id = match state.require() {
        Ok(user_id) => user_id,
        Err(e) => {
            return Err(e);
        },
    };
    session_service::get_active_session(db, user_id)
}

/// Starts a session for whoever is signed in.
pub fn start_session(state: &AppState, db: &mut Database, project_id: Option<i64>) -> (r: Result<
    ActiveSessionResponse,
    ServiceError,
>)
    requires
        old(db).wf(),
    ensures
        final(db).wf(),
        match state.current_user_id {
            None => final(db)@ == old(db)@ && fails_with(r, ServiceError::NotAuthenticated),
            Some(user_id) => exists|now: Seq<char>|
                final(db)@ == (#[trigger] old(db)@.start(user_id, project_id, now)).0
                    && started_view(r) == old(db)@.start(user_id, project_id, now).1,
        },
        final(db)@.keeps(old(db)@),
        old(db)@.tags_name_handed_out_ids() && r is Ok ==> tags_of(
            final(db)@.session_tags,
            r->Ok_0.id,
        ) == Seq::<Seq<char>>::empty(),
{
    let user_id = match state.require() {
        Ok(user_id) => user_id,
        Err(e) => {
            return Err(e);
        },
    };
    session_service::start_session(db, user_id, project_id)
}

/// Finalizes session `session_id` for whoever is signed in.
pub fn finalize_session(
    state: &AppState,
    db: &mut Database,
    session_id: i64,
    description: String,
    tags: Vec<String>,
) -> (r: Result<(), ServiceError>)
    requires
        old(db).wf(),
    ensures
        final(db).wf(),
        final(db)@.keeps(old(db)@),
        match state.current_user_id {
            None => final(db)@ == old(db)@ && fails_with(r, ServiceError::NotAuthenticated),
            Some(user_id) => exists|now: Seq<char>|
                final(db)@ == (#[trigger] old(db)@.finalize(
                    user_id,
                    session_id,
                    description@,
                    texts(tags@),
                    now,
                )).0 && r == old(db)@.finalize(
                    user_id,
                    session_id,
                    description@,
                    texts(tags@),
                    now,
                ).1,
        },
{
    let user_id = match state.require() {
        Ok(user_id) => user_id,
        Err(e) => {
            return Err(e);
        },
    };
    session_service::finalize_session(db, user_id, session_id, description, tags)
}

/// Cancels the running session of whoever is signed in.
pub fn cancel_session(state: &AppState, db: &mut Database) -> (r: Result<(), ServiceError>)
    requires
        old(db).wf(),
    ensures
        final(db).wf(),
        final(db)@.keeps(old(db)@),
        match state.current_user_id {
            None => final(db)@ == old(db)@ && fails_with(r, ServiceError::NotAuthenticated),
            Some(user_id) => final(db)@ == old(db)@.cancel(user_id) && r is Ok,
        },
{
    let user_id = match state.require() {
        Ok(user_id) => user_id,
        Err(e) => {
            return Err(e);
        },
    };
    session_service::cancel_session(db, user_id)
}

/// The finished sessions of whoever is signed in, latest start first.
pub fn get_finished_sessions(state: &AppState, db: &Database) -> (r: Result<
    Vec<FinishedSessionResponse>,
    ServiceError,
>)
    requires
        db.wf(),
    ensures
        match state.current_user_id {
            None => fails_with(r, ServiceError::NotAuthenticated),
            Some(user_id) => match r {
                Ok(list) => {
                    &&& !db@.has_unended_finished(user_id)
                    &&& finished_views(list@).to_multiset() == db@.finished(user_id).to_multiset()
                    &&& latest_first(finished_views(list@))
                },
                Err(e) => e == ServiceError::StorageFailure && db@.has_unended_finished(user_id),
            },
        },
        state.current_user_id is Some && db@.finished_have_ended() ==> r is Ok,
{
    let user_id = match state.require() {
        Ok(user_id) => user_id,
        Err(e) => {
            return Err(e);
        },
    };
    session_service::get_finished_sessions(db, user_id)
}

} // verus!
