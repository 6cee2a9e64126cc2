//! Identities: creating them, finding them, signing them in and out, and
//! changing what they hold.

use crate::credential::{argon2_accepts, hash_password, verify_password};
use crate::db::{Database, DatabaseView, user_rows};
use crate::error::{ServiceError, fails_with};
use crate::models::user::{DbUser, PublicUser, PublicUserView, UserRow};
use crate::text::{
    local_part, local_part_of, normalize_email, normalized_email, normalized_opt, opt_text,
    same_text,
};
use crate::theorems::{Operation, theorem_rules_kept};
use vstd::prelude::*;

verus! {

/// What an operation that returns an identity hands back, as a contract sees it.
pub open spec fn shown_user(r: Result<PublicUser, ServiceError>) -> Result<
    PublicUserView,
    ServiceError,
> {
    match r {
        Ok(user) => Ok(user@),
        Err(e) => Err(e),
    }
}

/// A stored identity with the given parts of its profile replaced.
pub open spec fn profile_changed(
    row: UserRow,
    display_name: Option<Seq<char>>,
    email: Option<Seq<char>>,
    password_hash: Option<Seq<char>>,
) -> UserRow {
    UserRow {
        display_name: if display_name is Some {
            display_name
        } else {
            row.display_name
        },
        email: if email is Some {
            email->0
        } else {
            row.email
        },
        password_hash: if password_hash is Some {
            password_hash->0
        } else {
            row.password_hash
        },
        ..row
    }
}

impl DatabaseView {
    /// The identity that `create` inserts.
    pub open spec fn created_row(self, email: Seq<char>, password_hash: Seq<char>) -> UserRow {
        UserRow {
            id: (self.user_seq + 1) as i64,
            email,
            password_hash,
            display_name: Some(local_part(email)),
            avatar_url: None,
            email_verified: 0,
        }
    }

    /// Creating an identity with this email and credential: the storage
    /// afterwards, and what the caller is told. Refused when the email is
    /// taken, and when the table has no id left to give.
    pub open spec fn create(self, email: Seq<char>, password_hash: Seq<char>) -> (
        DatabaseView,
        Result<PublicUserView, ServiceError>,
    ) {
        if self.has_email(email) {
            (self, Err(ServiceError::DuplicateEmail))
        } else if self.user_seq == i64::MAX {
            (self, Err(ServiceError::StorageFailure))
        } else {
            let row = self.created_row(email, password_hash);
            (
                DatabaseView { users: self.users.push(row), user_seq: row.id, ..self },
                Ok(row.public()),
            )
        }
    }

    /// Whether this email and password sign someone in: the email is stored,
    /// and the password is accepted for its credential.
    pub open spec fn admits(self, email: Seq<char>, password: Seq<char>) -> bool {
        self.has_email(email) && argon2_accepts(self.user_by_email(email).password_hash, password)
    }

    /// Signing in with this email and password: the storage afterwards, and
    /// what the caller is told. An unknown email and a wrong password fail
    /// alike; success records the identity as signed in.
    pub open spec fn login(self, email: Seq<char>, password: Seq<char>) -> (
        DatabaseView,
        Result<PublicUserView, ServiceError>,
    ) {
        if !self.admits(email, password) {
            (self, Err(ServiceError::InvalidCredentials))
        } else {
            let row = self.user_by_email(email);
            (DatabaseView { app_session: Some(row.id), ..self }, Ok(row.public()))
        }
    }

    /// The storage once nobody is recorded as signed in.
    pub open spec fn logout(self) -> DatabaseView {
        DatabaseView { app_session: None, ..self }
    }

    /// Whether an identity other than `id` holds this email.
    pub open spec fn email_taken_by_other(self, id: i64, email: Seq<char>) -> bool {
        exists|i: int|
            0 <= i < self.users.len() && (#[trigger] self.users[i]).email == email
                && self.users[i].id != id
    }

    /// Changing the profile of identity `id`: the storage afterwards, and
    /// what the caller is told. Only the parts given change. Refused when
    /// the identity is not stored, and when the new email belongs to another.
    pub open spec fn update_profile(
        self,
        id: i64,
        display_name: Option<Seq<char>>,
        email: Option<Seq<char>>,
        password_hash: Option<Seq<char>>,
    ) -> (DatabaseView, Result<PublicUserView, ServiceError>) {
        if !self.has_user(id) {
            (self, Err(ServiceError::NotFound))
        } else if email is Some && self.email_taken_by_other(id, email->0) {
            (self, Err(ServiceError::DuplicateEmail))
        } else {
            (
                DatabaseView {
                    users: Seq::new(
                        self.users.len(),
                        |i: int|
                            if self.users[i].id == id {
                                profile_changed(self.users[i], display_name, email, password_hash)
                            } else {
                                self.users[i]
                            },
                    ),
                    ..self
                },
                Ok(profile_changed(self.user(id), display_name, email, password_hash).public()),
            )
        }
    }

    /// The storage once identity `id`, if stored, refers to the avatar at `path`.
    pub open spec fn with_avatar(self, id: i64, path: Seq<char>) -> DatabaseView {
        DatabaseView {
            users: Seq::new(
                self.users.len(),
                |i: int|
                    if self.users[i].id == id {
                        UserRow { avatar_url: Some(path), ..self.users[i] }
                    } else {
                        self.users[i]
                    },
            ),
            ..self
        }
    }
}

/// The stored identity with this id.
fn get_user_by_id_internal(db: &Database, id: i64) -> (r: Result<DbUser, ServiceError>)
    requires
        db.wf(),
    ensures
        match r {
            Ok(user) => db@.has_user(id) && user@ == db@.user(id),
            Err(e) => e == ServiceError::NotFound && !db@.has_user(id),
        },
{
    match db.find_user(id) {
        Some(i) => {
            proof {
                db@.lemma_user_at(i as int);
            }
            Ok(db.users[i].clone())
        },
        None => Err(ServiceError::NotFound),
    }
}

/// The identity with this id, without its credential. Fails with `NotFound`
/// when none is stored.
pub fn get_user_by_id(db: &Database, id: i64) -> (r: Result<PublicUser, ServiceError>)
    requires
        db.wf(),
    ensures
        match r {
            Ok(user) => db@.has_user(id) && user@ == db@.user(id).public(),
            Err(e) => e == ServiceError::NotFound && !db@.has_user(id),
        },
{
    match get_user_by_id_internal(db, id) {
        Ok(user) => Ok(PublicUser::from(user)),
        Err(e) => Err(e),
    }
}

/// The stored identity with exactly this email, if there is one.
pub fn get_user_by_email(db: &Database, email: &str) -> (r: Option<DbUser>)
    requires
        db.wf(),
    ensures
        match r {
            Some(user) => db@.has_email(email@) && user@ == db@.user_by_email(email@),
            None => !db@.has_email(email@),
        },
{
    proof {
        db.lemma_view();
    }
    let n = db.users.len();
    let mut i: usize = 0;
    while i < n
        invariant
            i <= n,
            n == db.users@.len(),
            db.wf(),
            db@.users == user_rows(db.users@),
            forall|k: int| 0 <= k < i ==> (#[trigger] db@.users[k]).email != email@,
        decreases n - i,
    {
        assert(db.users@[i as int]@ == db@.users[i as int]);
        if same_text(db.users[i].email.as_str(), email) {
            proof {
                db@.lemma_user_at(i as int);
            }
            return Some(db.users[i].clone());
        }
        i += 1;
    }
    None
}

/// Stores a new identity under `email`, which is in its stored form, with
/// this credential.
fn insert_normalized(db: &mut Database, email: &str, password_hash: String) -> (r: Result<
    PublicUser,
    ServiceError,
>)
    requires
        old(db).wf(),
    ensures
        final(db).wf(),
        final(db)@ == old(db)@.create(email@, password_hash@).0,
        shown_user(r) == old(db)@.create(email@, password_hash@).1,
{
    proof {
        db.lemma_view();
    }
    if get_user_by_email(db, email).is_some() {
        return Err(ServiceError::DuplicateEmail);
    }
    if db.user_seq == i64::MAX {
        return Err(ServiceError::StorageFailure);
    }
    let ghost before = db@;
    let ghost row = before.created_row(email@, password_hash@);
    let id: i64 = db.user_seq + 1;
    let display_name = local_part_of(email);
    let stored = DbUser {
        id,
        email: email.to_owned(),
        password_hash,
        display_name: Some(display_name.clone()),
        avatar_url: None,
        email_verified: 0,
    };
    assert(stored@ == row);
    db.user_seq = id;
    db.users.push(stored);
    proof {
        db.lemma_view();
        assert(db@.users =~= before.users.push(row));
        assert forall|i: int, j: int| 0 <= i < j < db@.users.len() implies db@.users[i].email
            != db@.users[j].email by {
            if j == before.users.len() {
                assert(before.users[i].email != email@);
            }
        }
    }
    Ok(
        PublicUser {
            id,
            email: email.to_owned(),
            display_name: Some(display_name),
            avatar_url: None,
            email_verified: false,
        },
    )
}

/// Stores a new identity with this email, as typed, and this credential.
///
/// The email is trimmed and put in lower case; it is stored, compared and
/// returned in that form. Fails with `DuplicateEmail` when an identity holds
/// it already, and with `StorageFailure` when the table has no id left; the
/// storage is then unchanged. Otherwise the identity is stored under the
/// next id, with the part of its email before the first `@` as display
/// name, and returned.
pub fn insert_user(db: &mut Database, email: &str, password_hash: String) -> (r: Result<
    PublicUser,
    ServiceError,
>)
    requires
        old(db).wf(),
    ensures
        final(db).wf(),
        final(db)@ == old(db)@.create(normalized_email(email@), password_hash@).0,
        shown_user(r) == old(db)@.create(normalized_email(email@), password_hash@).1,
        final(db)@.keeps(old(db)@),
{
    proof {
        theorem_rules_kept(
            db@,
            Operation::Create { email: email@, password_hash: password_hash@ },
        );
    }
    let stored_form = normalize_email(email);
    insert_normalized(db, stored_form.as_str(), password_hash)
}

/// Creates an identity with this email, as typed, and this password.
///
/// The email is trimmed and put in lower case; it is stored, compared and
/// returned in that form. Fails with `DuplicateEmail` when an identity holds
/// it already: the password is then not even hashed. Otherwise the password
/// is hashed; where that fails, the call fails with `HashingFailed`. In both
/// cases nothing is stored. Otherwise the identity is stored as by
/// `insert_user`, with a credential that is accepted for `password`.
pub fn create_user(db: &mut Database, email: &str, password: &str) -> (r: Result<
    PublicUser,
    ServiceError,
>)
    requires
        old(db).wf(),
    ensures
        final(db).wf(),
        old(db)@.has_email(normalized_email(email@)) ==> fails_with(
            r,
            ServiceError::DuplicateEmail,
        ) && final(db)@ == old(db)@,
        !old(db)@.has_email(normalized_email(email@)) ==> {
            ||| fails_with(r, ServiceError::HashingFailed) && final(db)@ == old(db)@
            ||| exists|hash: Seq<char>|
                {
                    &&& argon2_accepts(hash, password@)
                    &&& final(db)@ == (#[trigger] old(db)@.create(
                        normalized_email(email@),
                        hash,
                    )).0
                    &&& shown_user(r) == old(db)@.create(normalized_email(email@), hash).1
                }
        },
        final(db)@.keeps(old(db)@),
{
    let stored_form = normalize_email(email);
    if get_user_by_email(db, stored_form.as_str()).is_some() {
        return Err(ServiceError::DuplicateEmail);
    }
    let password_hash = match hash_password(password) {
        Ok(hash) => hash,
        Err(e) => {
            return Err(e);
        },
    };
    proof {
        theorem_rules_kept(
            db@,
            Operation::Create { email: email@, password_hash: password_hash@ },
        );
    }
    insert_normalized(db, stored_form.as_str(), password_hash)
}

/// Concludes a sign-in: `found` is the identity stored under the email
/// given, and `accepted` says whether the password given is accepted for its
/// credential.
///
/// Fails with `InvalidCredentials`, and changes nothing, when no identity
/// was found or the password was not accepted. Otherwise the identity is
/// recorded as signed in and returned.
pub fn grant_login(db: &mut Database, found: Option<DbUser>, accepted: bool) -> (r: Result<
    PublicUser,
    ServiceError,
>)
    requires
        old(db).wf(),
    ensures
        final(db).wf(),
        match found {
            Some(user) if accepted => final(db)@ == (DatabaseView {
                app_session: Some(user.id),
                ..old(db)@
            }) && shown_user(r) == Ok::<PublicUserView, ServiceError>(user@.public()),
            _ => final(db)@ == old(db)@ && fails_with(r, ServiceError::InvalidCredentials),
        },
{
    proof {
        db.lemma_view();
    }
    match found {
        Some(user) => {
            if !accepted {
                return Err(ServiceError::InvalidCredentials);
            }
            db.app_session = Some(user.id);
            proof {
                db.lemma_view();
            }
            Ok(PublicUser::from(user))
        },
        None => Err(ServiceError::InvalidCredentials),
    }
}

/// Signs in the identity whose stored email is exactly `email`, if
/// `password` is accepted for its credential. Nothing is written here, so
/// the email is compared as it stands, as `get_user_by_email` compares it;
/// `commands::auth::sign_in` takes an email as typed.
///
/// Fails with `InvalidCredentials`, and changes nothing, when no identity
/// has exactly this email or the password is not accepted. Otherwise the
/// identity is recorded as signed in and returned.
pub fn login_user(db: &mut Database, email: &str, password: &str) -> (r: Result<
    PublicUser,
    ServiceError,
>)
    requires
        old(db).wf(),
    ensures
        final(db).wf(),
        final(db)@ == old(db)@.login(email@, password@).0,
        shown_user(r) == old(db)@.login(email@, password@).1,
        final(db)@.keeps(old(db)@),
{
    proof {
        theorem_rules_kept(
            db@,
            Operation::Login { email: email@, password: password@ },
        );
    }
    let found = get_user_by_email(db, email);
    let accepted = match &found {
        Some(user) => verify_password(user.password_hash.as_str(), password),
        None => false,
    };
    grant_login(db, found, accepted)
}

/// Removes the record of who is signed in.
pub fn logout_user(db: &mut Database) -> (r: Result<(), ServiceError>)
    requires
        old(db).wf(),
    ensures
        final(db).wf(),
        final(db)@.keeps(old(db)@),
        r is Ok,
        final(db)@ == old(db)@.logout(),
{
    proof {
        db.lemma_view();
        theorem_rules_kept(db@, Operation::Logout);
    }
    db.app_session = None;
    proof {
        db.lemma_view();
    }
    Ok(())
}

/// Whether an identity other than `id` holds `email`.
fn email_taken_by_other(db: &Database, id: i64, email: &str) -> (taken: bool)
    ensures
        taken == db@.email_taken_by_other(id, email@),
{
    proof {
        db.lemma_view();
    }
    let n = db.users.len();
    let mut i: usize = 0;
    while i < n
        invariant
            i <= n,
            n == db.users@.len(),
            db@.users == user_rows(db.users@),
            forall|k: int|
                0 <= k < i ==> !((#[trigger] db@.users[k]).email == email@ && db@.users[k].id
                    != id),
        decreases n - i,
    {
        assert(db.users@[i as int]@ == db@.users[i as int]);
        if db.users[i].id != id && same_text(db.users[i].email.as_str(), email) {
            return true;
        }
        i += 1;
    }
    false
}

/// Changes the profile of identity `user_id` in the parts given, where
/// `email` is in its stored form.
fn apply_normalized_update(
    db: &mut Database,
    user_id: i64,
    display_name: Option<String>,
    email: Option<String>,
    password_hash: Option<String>,
) -> (r: Result<PublicUser, ServiceError>)
    requires
        old(db).wf(),
    ensures
        final(db).wf(),
        final(db)@ == old(db)@.update_profile(
            user_id,
            opt_text(display_name),
            opt_text(email),
            opt_text(password_hash),
        ).0,
        shown_user(r) == old(db)@.update_profile(
            user_id,
            opt_text(display_name),
            opt_text(email),
            opt_text(password_hash),
        ).1,
{
    proof {
        db.lemma_view();
    }
    let ghost before = db@;
    let at = match db.find_user(user_id) {
        Some(at) => at,
        None => {
            return Err(ServiceError::NotFound);
        },
    };
    proof {
        before.lemma_user_at(at as int);
    }
    match &email {
        Some(new_email) => {
            if email_taken_by_other(db, user_id, new_email.as_str()) {
                return Err(ServiceError::DuplicateEmail);
            }
        },
        None => {},
    }
    let ghost after = before.update_profile(
        user_id,
        opt_text(display_name),
        opt_text(email),
        opt_text(password_hash),
    ).0;
    let ghost changed = profile_changed(
        before.users[at as int],
        opt_text(display_name),
        opt_text(email),
        opt_text(password_hash),
    );
    match display_name {
        Some(name) => {
            db.users[at].display_name = Some(name);
        },
        None => {},
    }
    match email {
        Some(new_email) => {
            db.users[at].email = new_email;
        },
        None => {},
    }
    match password_hash {
        Some(hash) => {
            db.users[at].password_hash = hash;
        },
        None => {},
    }
    proof {
        db.lemma_view();
        assert(db.users@[at as int]@ == changed);
        assert(db@.users =~= after.users) by {
            assert forall|k: int| 0 <= k < before.users.len() implies user_rows(db.users@)[k]
                == after.users[k] by {
                if k < at {
                    assert(before.users[k].id != before.users[at as int].id);
                } else if k > at {
                    assert(before.users[at as int].id != before.users[k].id);
                }
            }
        }
        assert(db@ == after);
        assert forall|i: int, j: int| 0 <= i < j < db@.users.len() implies db@.users[i].email
            != db@.users[j].email by {
            assert(before.users[i].email != before.users[j].email);
            if i == at && email is Some {
                assert(!(before.users[j].email == email->0@ && before.users[j].id != user_id));
                assert(before.users[at as int].id != before.users[j].id);
            } else if j == at && email is Some {
                assert(!(before.users[i].email == email->0@ && before.users[i].id != user_id));
                assert(before.users[i].id != before.users[at as int].id);
            }
        }
    }
    Ok(PublicUser::from(db.users[at].clone()))
}

/// Changes the profile of identity `user_id`: each part that is given
/// replaces what is stored, and what is not given stays. A new email is
/// trimmed and put in lower case, and stored in that form. `password_hash`
/// is the credential of a new password, already hashed.
///
/// Fails with `NotFound` when the identity is not stored, and with
/// `DuplicateEmail` when another identity holds the new email; the storage
/// is then unchanged. Otherwise the identity is returned as it now stands.
pub fn apply_profile_update(
    db: &mut Database,
    user_id: i64,
    display_name: Option<String>,
    email: Option<String>,
    password_hash: Option<String>,
) -> (r: Result<PublicUser, ServiceError>)
    requires
        old(db).wf(),
    ensures
        final(db).wf(),
        final(db)@ == old(db)@.update_profile(
            user_id,
            opt_text(display_name),
            normalized_opt(opt_text(email)),
            opt_text(password_hash),
        ).0,
        shown_user(r) == old(db)@.update_profile(
            user_id,
            opt_text(display_name),
            normalized_opt(opt_text(email)),
            opt_text(password_hash),
        ).1,
        final(db)@.keeps(old(db)@),
{
    proof {
        theorem_rules_kept(
            db@,
            Operation::UpdateProfile {
                id: user_id,
                new_display_name: opt_text(display_name),
                new_email: opt_text(email),
                new_password_hash: opt_text(password_hash),
            },
        );
    }
    let stored_form = match &email {
        Some(raw) => Some(normalize_email(raw.as_str())),
        None => None,
    };
    apply_normalized_update(db, user_id, display_name, stored_form, password_hash)
}

/// Whether the password of an identity may be replaced: `given` says
/// whether the current password was handed in, and `accepted` whether it
/// is accepted for the stored credential.
///
/// Fails with `MissingCredential` when it was not handed in, and with
/// `WrongCredential` when it was handed in and not accepted.
pub fn allow_password_change(given: bool, accepted: bool) -> (r: Result<(), ServiceError>)
    ensures
        r == if !given {
            Err::<(), ServiceError>(ServiceError::MissingCredential)
        } else if !accepted {
            Err::<(), ServiceError>(ServiceError::WrongCredential)
        } else {
            Ok::<(), ServiceError>(())
        },
{
    if !given {
        Err(ServiceError::MissingCredential)
    } else if !accepted {
        Err(ServiceError::WrongCredential)
    } else {
        Ok(())
    }
}

/// Changes the profile of identity `user_id`. A new password takes effect
/// only if `current_password` is given and accepted for the stored credential.
///
/// In this order: fails with `NotFound` when the identity is not stored;
/// when `password` is given, fails with `MissingCredential` without
/// `current_password`, with `WrongCredential` when it is not accepted, and
/// with `HashingFailed` when the new password cannot be hashed. In each of
/// these cases nothing changes. Otherwise the change is made as by
/// `apply_profile_update`, which puts a new email in its stored form, with
/// a credential accepted for the new password where one was given.
pub fn update_user_profile_internal(
    db: &mut Database,
    user_id: i64,
    display_name: Option<String>,
    email: Option<String>,
    password: Option<String>,
    current_password: Option<String>,
) -> (r: Result<PublicUser, ServiceError>)
    requires
        old(db).wf(),
    ensures
        final(db).wf(),
        final(db)@.keeps(old(db)@),
        !old(db)@.has_user(user_id) ==> final(db)@ == old(db)@ && fails_with(
            r,
            ServiceError::NotFound,
        ),
        old(db)@.has_user(user_id) && password is None ==> {
            &&& final(db)@ == old(db)@.update_profile(
                user_id,
                opt_text(display_name),
                normalized_opt(opt_text(email)),
                None,
            ).0
            &&& shown_user(r) == old(db)@.update_profile(
                user_id,
                opt_text(display_name),
                normalized_opt(opt_text(email)),
                None,
            ).1
        },
        old(db)@.has_user(user_id) && password is Some && current_password is None ==> final(db)@
            == old(db)@ && fails_with(r, ServiceError::MissingCredential),
        old(db)@.has_user(user_id) && password is Some && current_password is Some
            && !argon2_accepts(old(db)@.user(user_id).password_hash, current_password->0@)
            ==> final(db)@ == old(db)@ && fails_with(r, ServiceError::WrongCredential),
        old(db)@.has_user(user_id) && password is Some && current_password is Some
            && argon2_accepts(old(db)@.user(user_id).password_hash, current_password->0@) ==> {
            ||| final(db)@ == old(db)@ && fails_with(r, ServiceError::HashingFailed)
            ||| exists|hash: Seq<char>|
                {
                    &&& argon2_accepts(hash, password->0@)
                    &&& final(db)@ == (#[trigger] old(db)@.update_profile(
                        user_id,
                        opt_text(display_name),
                        normalized_opt(opt_text(email)),
                        Some(hash),
                    )).0
                    &&& shown_user(r) == old(db)@.update_profile(
                        user_id,
                        opt_text(display_name),
                        normalized_opt(opt_text(email)),
                        Some(hash),
                    ).1
                }
        },
{
    let user = match get_user_by_id_internal(db, user_id) {
        Ok(user) => user,
        Err(e) => {
            return Err(e);
        },
    };
    let password_hash = match password {
        None => None,
        Some(new_password) => {
            let accepted = match &current_password {
                Some(current) => verify_password(user.password_hash.as_str(), current.as_str()),
                None => false,
            };
            match allow_password_change(current_password.is_some(), accepted) {
                Ok(()) => {},
                Err(e) => {
                    return Err(e);
                },
            }
            match hash_password(new_password.as_str()) {
                Ok(hash) => Some(hash),
                Err(e) => {
                    return Err(e);
                },
            }
        },
    };
    apply_profile_update(db, user_id, display_name, email, password_hash)
}

/// Records `path` as the place where the avatar of identity `user_id` is
/// kept, and hands it back. Where no such identity is stored, nothing
/// changes; the call succeeds either way.
pub fn upload_avatar_internal(db: &mut Database, user_id: i64, path: String) -> (r: Result<
    String,
    ServiceError,
>)
    requires
        old(db).wf(),
    ensures
        final(db).wf(),
        final(db)@.keeps(old(db)@),
        final(db)@ == old(db)@.with_avatar(user_id, path@),
        !old(db)@.has_user(user_id) ==> final(db)@ == old(db)@,
        (r matches Ok(kept) && kept@ == path@),
{
    proof {
        db.lemma_view();
        theorem_rules_kept(db@, Operation::SetAvatar { id: user_id, path: path@ });
    }
    let ghost before = db@;
    let ghost after = before.with_avatar(user_id, path@);
    match db.find_user(user_id) {
        Some(at) => {
            db.users[at].avatar_url = Some(path.clone());
            proof {
                db.lemma_view();
                assert(db@.users =~= after.users) by {
                    assert forall|k: int| 0 <= k < before.users.len() implies user_rows(
                        db.users@,
                    )[k] == after.users[k] by {
                        if k < at {
                            assert(before.users[k].id != before.users[at as int].id);
                        } else if k > at {
                            assert(before.users[at as int].id != before.users[k].id);
                        }
                    }
                }
            }
        },
        None => {
            assert(after.users =~= before.users);
        },
    }
    Ok(path)
}

} // verus!
