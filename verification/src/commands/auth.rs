//! Registering, signing in and out, and the profile of whoever is signed in.
//!
//! Signing in touches two things, the stored record and the state of the
//! running process. `login` does both or neither. Where the record is
//! written by something that can fail, record the sign-in with [`sign_in`],
//! write, and hand the outcome to [`AppState::settle_login`]; sign out
//! likewise with [`user_service::logout_user`] and
//! [`AppState::settle_logout`].

use crate::credential::argon2_accepts;
use crate::db::Database;
use crate::error::{ServiceError, fails_with};
use crate::models::user::PublicUser;
use crate::services::user_service;
use crate::services::user_service::shown_user;
use crate::state::AppState;
use crate::text::{normalize_email, normalized_email, normalized_opt, opt_text};
use vstd::prelude::*;
use vstd::utf8::encode_utf8;

verus! {

/// What is needed to register.
#[derive(Debug)]
pub struct RegisterInput {
    pub email: String,
    pub password: String,
}

/// What is needed to sign in.
#[derive(Debug)]
pub struct LoginInput {
    pub email: String,
    pub password: String,
}

/// What to change of a profile: the parts that are given.
#[derive(Debug)]
pub struct UpdateProfileInput {
    pub display_name: Option<String>,
    pub email: Option<String>,
    pub password: Option<String>,
    pub current_password: Option<String>,
}

/// The least number of bytes a password must have.
pub const MIN_PASSWORD_BYTES: usize = 6;

/// Registers an identity.
///
/// Fails with `PasswordTooShort` when the password has fewer than six
/// bytes. Otherwise the identity is created as by `create_user`, which
/// trims the email and puts it in lower case: `DuplicateEmail` when that
/// email is taken, however it was typed.
pub fn register_user(db: &mut Database, input: RegisterInput) -> (r: Result<
    PublicUser,
    ServiceError,
>)
    requires
        old(db).wf(),
    ensures
        final(db).wf(),
        encode_utf8(input.password@).len() < MIN_PASSWORD_BYTES ==> final(db)@ == old(db)@
            && fails_with(r, ServiceError::PasswordTooShort),
        encode_utf8(input.password@).len() >= MIN_PASSWORD_BYTES && old(db)@.has_email(
            normalized_email(input.email@),
        ) ==> fails_with(r, ServiceError::DuplicateEmail) && final(db)@ == old(db)@,
        encode_utf8(input.password@).len() >= MIN_PASSWORD_BYTES && !old(db)@.has_email(
            normalized_email(input.email@),
        ) ==> {
            ||| fails_with(r, ServiceError::HashingFailed) && final(db)@ == old(db)@
            ||| exists|hash: Seq<char>|
                {
                    &&& argon2_accepts(hash, input.password@)
                    &&& final(db)@ == (#[trigger] old(db)@.create(
                        normalized_email(input.email@),
                        hash,
                    )).0
                    &&& shown_user(r) == old(db)@.create(normalized_email(input.email@), hash).1
                }
        },
        final(db)@.keeps(old(db)@),
{
    if input.password.as_str().as_bytes().len() < MIN_PASSWORD_BYTES {
        return Err(ServiceError::PasswordTooShort);
    }
    user_service::create_user(db, input.email.as_str(), input.password.as_str())
}

/// Records a sign-in in the storage, and leaves the state of the running
/// process to the caller.
///
/// The email is trimmed and put in lower case. Fails with
/// `InvalidCredentials`, and changes nothing, when no identity has that
/// email or the password is not accepted for its credential. Otherwise the
/// stored record names the identity, which is returned.
pub fn sign_in(db: &mut Database, input: LoginInput) -> (r: Result<PublicUser, ServiceError>)
    requires
        old(db).wf(),
    ensures
        final(db).wf(),
        final(db)@ == old(db)@.login(normalized_email(input.email@), input.password@).0,
        shown_user(r) == old(db)@.login(normalized_email(input.email@), input.password@).1,
        final(db)@.keeps(old(db)@),
{
    let email = normalize_email(input.email.as_str());
    user_service::login_user(db, email.as_str(), input.password.as_str())
}

/// Signs in.
///
/// The email is trimmed and put in lower case. Fails with
/// `InvalidCredentials` when no identity has that email or the password is
/// not accepted for its credential; neither the storage nor the state
/// changes then. Otherwise the identity is signed in, in the stored record
/// and in the state alike, and returned.
pub fn login(state: &mut AppState, db: &mut Database, input: LoginInput) -> (r: Result<
    PublicUser,
    ServiceError,
>)
    requires
        old(db).wf(),
    ensures
        final(db).wf(),
        final(db)@ == old(db)@.login(normalized_email(input.email@), input.password@).0,
        shown_user(r) == old(db)@.login(normalized_email(input.email@), input.password@).1,
        match r {
            Ok(user) => final(state).current_user_id == Some(user.id) && final(db)@.app_session
                == Some(user.id),
            Err(_) => *final(state) == *old(state),
        },
        final(db)@.keeps(old(db)@),
{
    let user = match sign_in(db, input) {
        Ok(user) => user,
        Err(e) => {
            return Err(e);
        },
    };
    match state.settle_login(user.id, true) {
        Ok(()) => Ok(user),
        Err(e) => Err(e),
    }
}

/// Signs in again whoever the stored record names, as when the process
/// starts. With no record, nobody is signed in.
pub fn restore_session(state: &mut AppState, db: &Database)
    ensures
        final(state).current_user_id == db@.app_session,
{
    proof {
        db.lemma_view();
    }
    state.restore(db.app_session);
}

/// The identity that is signed in. Fails with `NotAuthenticated` when
/// nobody is, and with `NotFound` when the identity is not stored.
pub fn get_current_user(state: &AppState, db: &Database) -> (r: Result<PublicUser, ServiceError>)
    requires
        db.wf(),
    ensures
        match state.current_user_id {
            None => fails_with(r, ServiceError::NotAuthenticated),
            Some(user_id) => match r {
                Ok(user) => db@.has_user(user_id) && user@ == db@.user(user_id).public(),
                Err(e) => e == ServiceError::NotFound && !db@.has_user(user_id),
            },
        },
{
    let user_id = match state.require() {
        Ok(user_id) => user_id,
        Err(e) => {
            return Err(e);
        },
    };
    user_service::get_user_by_id(db, user_id)
}

/// Changes the profile of whoever is signed in. Fails with
/// `NotAuthenticated` when nobody is. Otherwise a new email is trimmed and
/// put in lower case, and the change is made as by
/// `update_user_profile_internal`.
pub fn update_user_profile(state: &AppState, db: &mut Database, input: UpdateProfileInput) -> (r:
    Result<PublicUser, ServiceError>)
    requires
        old(db).wf(),
    ensures
        final(db).wf(),
        final(db)@.keeps(old(db)@),
        state.current_user_id is None ==> final(db)@ == old(db)@ && fails_with(
            r,
            ServiceError::NotAuthenticated,
        ),
        state.current_user_id matches Some(user_id) ==> {
            &&& !old(db)@.has_user(user_id) ==> final(db)@ == old(db)@ && fails_with(
                r,
                ServiceError::NotFound,
            )
            &&& old(db)@.has_user(user_id) && input.password is None ==> {
                &&& final(db)@ == old(db)@.update_profile(
                    user_id,
                    opt_text(input.display_name),
                    normalized_opt(opt_text(input.email)),
                    None,
                ).0
                &&& shown_user(r) == old(db)@.update_profile(
                    user_id,
                    opt_text(input.display_name),
                    normalized_opt(opt_text(input.email)),
                    None,
                ).1
            }
            &&& old(db)@.has_user(user_id) && input.password is Some && input.current_password
                is None ==> final(db)@ == old(db)@ && fails_with(r, ServiceError::MissingCredential)
            &&& old(db)@.has_user(user_id) && input.password is Some && input.current_password
                is Some && !argon2_accepts(
                old(db)@.user(user_id).password_hash,
                input.current_password->0@,
            ) ==> final(db)@ == old(db)@ && fails_with(r, ServiceError::WrongCredential)
            &&& old(db)@.has_user(user_id) && input.password is Some && input.current_password
                is Some && argon2_accepts(
                old(db)@.user(user_id).password_hash,
                input.current_password->0@,
            ) ==> {
                ||| final(db)@ == old(db)@ && fails_with(r, ServiceError::HashingFailed)
                ||| exists|hash: Seq<char>|
                    {
                        &&& argon2_accepts(hash, input.password->0@)
                        &&& final(db)@ == (#[trigger] old(db)@.update_profile(
                            user_id,
                            opt_text(input.display_name),
                            normalized_opt(opt_text(input.email)),
                            Some(hash),
                        )).0
                        &&& shown_user(r) == old(db)@.update_profile(
                            user_id,
                            opt_text(input.display_name),
                            normalized_opt(opt_text(input.email)),
                            Some(hash),
                        ).1
                    }
            }
        },
{
    let user_id = match state.require() {
        Ok(user_id) => user_id,
        Err(e) => {
            return Err(e);
        },
    };
    user_service::update_user_profile_internal(
        db,
        user_id,
        input.display_name,
        input.email,
        input.password,
        input.current_password,
    )
}

/// Signs out: the stored record is removed and nobody is signed in.
pub fn logout_user_command(state: &mut AppState, db: &mut Database) -> (r: Result<
    (),
    ServiceError,
>)
    requires
        old(db).wf(),
    ensures
        final(db).wf(),
        final(db)@.keeps(old(db)@),
        r is Ok,
        final(db)@ == old(db)@.logout(),
        final(state).current_user_id is None,
{
    let removed = user_service::logout_user(db).is_ok();
    state.settle_logout(removed)
}

/// Records where the avatar of whoever is signed in is kept, and hands the
/// place back. Fails with `NotAuthenticated` when nobody is signed in.
pub fn upload_avatar(state: &AppState, db: &mut Database, path: String) -> (r: Result<
    String,
    ServiceError,
>)
    requires
        old(db).wf(),
    ensures
        final(db).wf(),
        final(db)@.keeps(old(db)@),
        match state.current_user_id {
            None => final(db)@ == old(db)@ && fails_with(r, ServiceError::NotAuthenticated),
            Some(user_id) => final(db)@ == old(db)@.with_avatar(user_id, path@) && (r matches Ok(
                kept,
            ) && kept@ == path@),
        },
{
    let user_id = match state.require() {
        Ok(user_id) => user_id,
        Err(e) => {
            return Err(e);
        },
    };
    user_service::upload_avatar_internal(db, user_id, path)
}

} // verus!
