use trackly::commands::auth::{
    get_current_user, login, logout_user_command, register_user, restore_session, sign_in,
    update_user_profile, upload_avatar, LoginInput, RegisterInput, UpdateProfileInput,
};
use trackly::credential::hash_password;
use trackly::db::{Database, Tables};
use trackly::error::ServiceError;
use trackly::models::user::{DbUser, PublicUser};
use trackly::services::user_service::{
    allow_password_change, apply_profile_update, create_user, get_user_by_email, get_user_by_id,
    grant_login, insert_user, login_user, logout_user, update_user_profile_internal,
    upload_avatar_internal,
};
use trackly::state::AppState;

fn text(s: &str) -> String {
    s.to_string()
}

fn register(db: &mut Database, email: &str, password: &str) -> Result<PublicUser, ServiceError> {
    register_user(db, RegisterInput { email: text(email), password: text(password) })
}

fn log_in(
    state: &mut AppState,
    db: &mut Database,
    email: &str,
    password: &str,
) -> Result<PublicUser, ServiceError> {
    login(state, db, LoginInput { email: text(email), password: text(password) })
}

fn error_of<T>(r: Result<T, ServiceError>) -> ServiceError {
    match r {
        Err(e) => e,
        Ok(_) => panic!("the call succeeded"),
    }
}

fn stored(id: i64, email: &str, password_hash: &str) -> DbUser {
    DbUser {
        id,
        email: text(email),
        password_hash: text(password_hash),
        display_name: None,
        avatar_url: None,
        email_verified: 0,
    }
}

fn storage_with(users: Vec<DbUser>, user_seq: i64, app_session: Option<i64>) -> Database {
    Database::from_tables(Tables {
        users,
        user_seq,
        projects: Vec::new(),
        project_seq: 0,
        sessions: Vec::new(),
        session_seq: 0,
        session_tags: Vec::new(),
        app_session,
    })
    .expect("the rows keep what the storage enforces")
}

#[test]
fn an_email_is_taken_however_it_is_typed() {
    let mut db = Database::new();
    let first = register(&mut db, "A@Ex.com", "secret1").expect("first registration");
    assert_eq!(first.id, 1);
    assert_eq!(first.email, "a@ex.com");
    assert_eq!(error_of(register(&mut db, "a@ex.com", "other12")), ServiceError::DuplicateEmail);
    assert_eq!(
        error_of(register(&mut db, "  a@EX.com\t", "other12")),
        ServiceError::DuplicateEmail,
    );
    let tables = db.into_tables();
    assert_eq!(tables.users.len(), 1);
    assert_eq!(tables.user_seq, 1);
    assert_eq!(tables.users[0].email, "a@ex.com");
}

#[test]
fn create_user_stores_the_email_trimmed_and_in_lower_case() {
    let mut db = Database::new();
    let user = create_user(&mut db, "  Ada@Example.ORG\n", "analytical").unwrap();
    assert_eq!(user.id, 1);
    assert_eq!(user.email, "ada@example.org");
    assert_eq!(user.display_name.as_deref(), Some("ada"));
    assert_eq!(user.avatar_url, None);
    assert!(!user.email_verified);
    let tables = db.into_tables();
    assert_eq!(tables.users.len(), 1);
    assert_eq!(tables.users[0].email, "ada@example.org");
    assert_eq!(tables.users[0].display_name.as_deref(), Some("ada"));
    assert_ne!(tables.users[0].password_hash, "analytical");
}

#[test]
fn create_user_refuses_a_taken_email_under_another_spelling() {
    let mut db = Database::new();
    let first = create_user(&mut db, "a@ex.com", "secret1").unwrap();
    for typed in [" A@Ex.com ", "A@EX.COM", "a@ex.com"] {
        assert_eq!(error_of(create_user(&mut db, typed, "other12")), ServiceError::DuplicateEmail);
    }
    let kept = get_user_by_email(&db, "a@ex.com").unwrap();
    assert_eq!(kept.id, first.id);
    assert!(get_user_by_email(&db, " A@Ex.com ").is_none());
    assert!(login_user(&mut db, "a@ex.com", "secret1").is_ok());
    let wrong = login_user(&mut db, "a@ex.com", "other12");
    assert_eq!(error_of(wrong), ServiceError::InvalidCredentials);
    let tables = db.into_tables();
    assert_eq!(tables.users.len(), 1);
    assert_eq!(tables.user_seq, 1);
    assert_eq!(tables.users[0].email, "a@ex.com");
}

#[test]
fn insert_user_stores_the_email_trimmed_and_in_lower_case() {
    let mut db = Database::new();
    let user = insert_user(&mut db, "\tBob@Ex.Com ", text("h1")).unwrap();
    assert_eq!(user.email, "bob@ex.com");
    assert_eq!(user.display_name.as_deref(), Some("bob"));
    for typed in ["BOB@ex.com", "bob@ex.com"] {
        let again = insert_user(&mut db, typed, text("h2"));
        assert_eq!(error_of(again), ServiceError::DuplicateEmail);
    }
    let tables = db.into_tables();
    assert_eq!(tables.users.len(), 1);
    assert_eq!(tables.users[0].email, "bob@ex.com");
    assert_eq!(tables.users[0].password_hash, "h1");
}

#[test]
fn a_new_email_is_stored_trimmed_and_in_lower_case() {
    let mut db = Database::new();
    create_user(&mut db, "a@ex.com", "secret1").unwrap();
    create_user(&mut db, "b@ex.com", "secret2").unwrap();
    let shown = apply_profile_update(&mut db, 2, None, Some(text("  Bee@Ex.COM ")), None);
    assert_eq!(shown.unwrap().email, "bee@ex.com");
    let taken = apply_profile_update(&mut db, 2, None, Some(text(" A@Ex.com")), None);
    assert_eq!(error_of(taken), ServiceError::DuplicateEmail);
    let own = update_user_profile_internal(&mut db, 2, None, Some(text("BEE@ex.com")), None, None);
    assert_eq!(own.unwrap().email, "bee@ex.com");
    let tables = db.into_tables();
    assert_eq!(tables.users[0].email, "a@ex.com");
    assert_eq!(tables.users[1].email, "bee@ex.com");
}

#[test]
fn register_fills_the_new_identity() {
    let mut db = Database::new();
    let user = register(&mut db, " Ada.Lovelace@Example.org ", "analytical").unwrap();
    assert_eq!(user.id, 1);
    assert_eq!(user.email, "ada.lovelace@example.org");
    assert_eq!(user.display_name.as_deref(), Some("ada.lovelace"));
    assert_eq!(user.avatar_url, None);
    assert!(!user.email_verified);
    let second = register(&mut db, "b@example.org", "abcdef").unwrap();
    assert_eq!(second.id, 2);
    let tables = db.into_tables();
    assert_eq!(tables.users[0].display_name.as_deref(), Some("ada.lovelace"));
    assert_eq!(tables.users[0].email_verified, 0);
    assert_eq!(tables.users[1].email, "b@example.org");
}

#[test]
fn a_short_password_is_refused() {
    let mut db = Database::new();
    assert_eq!(error_of(register(&mut db, "a@ex.com", "12345")), ServiceError::PasswordTooShort);
    assert_eq!(error_of(register(&mut db, "a@ex.com", "")), ServiceError::PasswordTooShort);
    assert!(register(&mut db, "a@ex.com", "123456").is_ok());
    // six bytes, though only three characters
    assert!(register(&mut db, "b@ex.com", "äöü").is_ok());
    assert_eq!(db.into_tables().users.len(), 2);
}

#[test]
fn the_password_is_stored_as_a_salted_hash() {
    let mut db = Database::new();
    create_user(&mut db, "a@ex.com", "secret1").unwrap();
    create_user(&mut db, "b@ex.com", "secret1").unwrap();
    let tables = db.into_tables();
    let first = &tables.users[0].password_hash;
    let second = &tables.users[1].password_hash;
    assert_ne!(first, "secret1");
    assert!(first.starts_with("$argon2id$"));
    assert!(!first.contains("secret1"));
    assert_ne!(first, second);
}

#[test]
fn hashing_is_salted_anew_each_time() {
    let one = hash_password("hunter42").unwrap();
    let two = hash_password("hunter42").unwrap();
    assert_ne!(one, two);
    assert_ne!(one, "hunter42");
    assert!(one.starts_with("$argon2id$v=19$"));
}

#[test]
fn login_checks_the_password() {
    let mut db = Database::new();
    register(&mut db, "a@ex.com", "secret1").unwrap();
    assert_eq!(
        error_of(login_user(&mut db, "a@ex.com", "secret2")),
        ServiceError::InvalidCredentials,
    );
    assert_eq!(db.app_session(), None);
    assert_eq!(
        error_of(login_user(&mut db, "nobody@ex.com", "secret1")),
        ServiceError::InvalidCredentials,
    );
    assert_eq!(db.app_session(), None);
    let user = login_user(&mut db, "a@ex.com", "secret1").unwrap();
    assert_eq!(user.id, 1);
    assert_eq!(user.email, "a@ex.com");
    assert_eq!(db.app_session(), Some(1));
}

#[test]
fn login_signs_in_the_state_and_the_record_or_neither() {
    let mut db = Database::new();
    let mut state = AppState::new();
    register(&mut db, "a@ex.com", "secret1").unwrap();
    register(&mut db, "b@ex.com", "secret2").unwrap();
    assert_eq!(
        error_of(log_in(&mut state, &mut db, "a@ex.com", "wrong!")),
        ServiceError::InvalidCredentials,
    );
    assert_eq!(state.get(), None);
    assert_eq!(db.app_session(), None);
    let user = log_in(&mut state, &mut db, "  B@ex.COM ", "secret2").unwrap();
    assert_eq!(user.id, 2);
    assert_eq!(state.get(), Some(2));
    assert_eq!(db.app_session(), Some(2));
    assert_eq!(
        error_of(log_in(&mut state, &mut db, "a@ex.com", "wrong!")),
        ServiceError::InvalidCredentials,
    );
    assert_eq!(state.get(), Some(2));
    assert_eq!(db.app_session(), Some(2));
}

#[test]
fn sign_in_records_the_identity_however_the_email_is_typed() {
    let mut db = Database::new();
    register(&mut db, "a@ex.com", "secret1").unwrap();
    let wrong = sign_in(&mut db, LoginInput { email: text("a@ex.com"), password: text("nope!!") });
    assert_eq!(error_of(wrong), ServiceError::InvalidCredentials);
    assert_eq!(db.app_session(), None);
    let input = LoginInput { email: text(" A@EX.com\n"), password: text("secret1") };
    let user = sign_in(&mut db, input).unwrap();
    assert_eq!(user.id, 1);
    assert_eq!(user.email, "a@ex.com");
    assert_eq!(db.app_session(), Some(1));
}

#[test]
fn whoever_signed_in_is_found_again_after_a_restart() {
    let mut db = Database::new();
    let mut state = AppState::new();
    register(&mut db, "a@ex.com", "secret1").unwrap();
    let user = log_in(&mut state, &mut db, "a@ex.com", "secret1").unwrap();
    let kept = db.into_tables();
    assert_eq!(kept.app_session, Some(user.id));

    let db = Database::from_tables(kept).unwrap();
    let mut state = AppState::new();
    assert_eq!(error_of(get_current_user(&state, &db)), ServiceError::NotAuthenticated);
    restore_session(&mut state, &db);
    let current = get_current_user(&state, &db).unwrap();
    assert_eq!(current.id, user.id);
    assert_eq!(current.email, "a@ex.com");
}

#[test]
fn a_restart_without_a_record_signs_nobody_in() {
    let db = Database::new();
    let mut state = AppState::new();
    state.set(3);
    restore_session(&mut state, &db);
    assert_eq!(state.get(), None);
}

#[test]
fn a_credential_that_is_no_phc_string_accepts_nothing() {
    let mut db = storage_with(vec![stored(1, "a@ex.com", "secret1")], 1, None);
    assert_eq!(
        error_of(login_user(&mut db, "a@ex.com", "secret1")),
        ServiceError::InvalidCredentials,
    );
    assert_eq!(error_of(login_user(&mut db, "a@ex.com", "")), ServiceError::InvalidCredentials);
    assert_eq!(db.app_session(), None);
}

#[test]
fn grant_login_goes_by_what_it_is_told() {
    let mut db = storage_with(vec![stored(4, "a@ex.com", "x")], 4, None);
    assert_eq!(error_of(grant_login(&mut db, None, true)), ServiceError::InvalidCredentials);
    assert_eq!(
        error_of(grant_login(&mut db, Some(stored(4, "a@ex.com", "x")), false)),
        ServiceError::InvalidCredentials,
    );
    assert_eq!(db.app_session(), None);
    let mut seen = stored(4, "a@ex.com", "x");
    seen.email_verified = 1;
    let user = grant_login(&mut db, Some(seen), true).unwrap();
    assert_eq!(user.id, 4);
    assert!(user.email_verified);
    assert_eq!(db.app_session(), Some(4));
}

#[test]
fn logout_removes_the_record_and_clears_the_state() {
    let mut db = Database::new();
    let mut state = AppState::new();
    register(&mut db, "a@ex.com", "secret1").unwrap();
    log_in(&mut state, &mut db, "a@ex.com", "secret1").unwrap();
    assert_eq!(logout_user_command(&mut state, &mut db), Ok(()));
    assert_eq!(state.get(), None);
    assert_eq!(db.app_session(), None);
    assert_eq!(logout_user_command(&mut state, &mut db), Ok(()));
    assert_eq!(logout_user(&mut db), Ok(()));
    assert_eq!(error_of(get_current_user(&state, &db)), ServiceError::NotAuthenticated);
}

#[test]
fn settling_a_login_waits_for_the_record() {
    let mut state = AppState::new();
    assert_eq!(state.settle_login(5, false), Err(ServiceError::StorageFailure));
    assert_eq!(state.get(), None);
    state.set(2);
    assert_eq!(state.settle_login(5, false), Err(ServiceError::StorageFailure));
    assert_eq!(state.get(), Some(2));
    assert_eq!(state.settle_login(5, true), Ok(()));
    assert_eq!(state.get(), Some(5));
}

#[test]
fn settling_a_logout_clears_the_state_whatever_the_storage_did() {
    let mut state = AppState::new();
    state.set(5);
    assert_eq!(state.settle_logout(false), Err(ServiceError::StorageFailure));
    assert_eq!(state.get(), None);
    state.set(5);
    assert_eq!(state.settle_logout(true), Ok(()));
    assert_eq!(state.get(), None);
}

#[test]
fn the_state_remembers_who_is_signed_in() {
    let mut state = AppState::default();
    assert_eq!(state.get(), None);
    assert_eq!(state.require(), Err(ServiceError::NotAuthenticated));
    state.set(9);
    assert_eq!(state.get(), Some(9));
    assert_eq!(state.require(), Ok(9));
    state.clear();
    assert_eq!(state.get(), None);
    state.restore(Some(3));
    assert_eq!(state.current_user_id, Some(3));
}

#[test]
fn a_new_display_name_leaves_email_and_credential_alone() {
    let mut db = Database::new();
    register(&mut db, "a@ex.com", "secret1").unwrap();
    let before = get_user_by_email(&db, "a@ex.com").unwrap();
    let shown = update_user_profile_internal(
        &mut db,
        1,
        Some(text("Ada")),
        None,
        None,
        None,
    ).unwrap();
    assert_eq!(shown.id, 1);
    assert_eq!(shown.display_name.as_deref(), Some("Ada"));
    assert_eq!(shown.email, "a@ex.com");
    let after = get_user_by_email(&db, "a@ex.com").unwrap();
    assert_eq!(after.email, before.email);
    assert_eq!(after.password_hash, before.password_hash);
    assert_eq!(after.display_name.as_deref(), Some("Ada"));
    assert!(login_user(&mut db, "a@ex.com", "secret1").is_ok());
}

#[test]
fn a_new_password_needs_the_current_one() {
    let mut db = Database::new();
    register(&mut db, "a@ex.com", "secret1").unwrap();
    let before = get_user_by_email(&db, "a@ex.com").unwrap().password_hash;
    let missing = update_user_profile_internal(
        &mut db,
        1,
        Some(text("x")),
        None,
        Some(text("newpass")),
        None,
    );
    assert_eq!(error_of(missing), ServiceError::MissingCredential);
    let wrong = update_user_profile_internal(
        &mut db,
        1,
        Some(text("x")),
        None,
        Some(text("newpass")),
        Some(text("guess")),
    );
    assert_eq!(error_of(wrong), ServiceError::WrongCredential);
    let unchanged = get_user_by_email(&db, "a@ex.com").unwrap();
    assert_eq!(unchanged.password_hash, before);
    assert_eq!(unchanged.display_name.as_deref(), Some("a"));

    update_user_profile_internal(
        &mut db,
        1,
        None,
        None,
        Some(text("newpass")),
        Some(text("secret1")),
    ).unwrap();
    let changed = get_user_by_email(&db, "a@ex.com").unwrap();
    assert_ne!(changed.password_hash, before);
    assert_ne!(changed.password_hash, "newpass");
    assert_eq!(changed.display_name.as_deref(), Some("a"));
    assert_eq!(
        error_of(login_user(&mut db, "a@ex.com", "secret1")),
        ServiceError::InvalidCredentials,
    );
    assert!(login_user(&mut db, "a@ex.com", "newpass").is_ok());
}

#[test]
fn a_password_change_needs_the_current_password_to_be_given_and_accepted() {
    assert_eq!(allow_password_change(false, false), Err(ServiceError::MissingCredential));
    assert_eq!(allow_password_change(false, true), Err(ServiceError::MissingCredential));
    assert_eq!(allow_password_change(true, false), Err(ServiceError::WrongCredential));
    assert_eq!(allow_password_change(true, true), Ok(()));
}

#[test]
fn a_profile_of_nobody_is_not_found() {
    let mut db = Database::new();
    let r = update_user_profile_internal(
        &mut db,
        1,
        Some(text("x")),
        None,
        Some(text("newpass")),
        None,
    );
    assert_eq!(error_of(r), ServiceError::NotFound);
    assert_eq!(
        error_of(apply_profile_update(&mut db, 1, None, None, None)),
        ServiceError::NotFound,
    );
    assert_eq!(error_of(get_user_by_id(&db, 1)), ServiceError::NotFound);
    assert!(get_user_by_email(&db, "a@ex.com").is_none());
}

#[test]
fn a_new_email_must_be_free() {
    let mut db = Database::new();
    register(&mut db, "a@ex.com", "secret1").unwrap();
    register(&mut db, "b@ex.com", "secret2").unwrap();
    let taken = update_user_profile_internal(
        &mut db,
        2,
        Some(text("B")),
        Some(text("a@ex.com")),
        None,
        None,
    );
    assert_eq!(error_of(taken), ServiceError::DuplicateEmail);
    let still = get_user_by_id(&db, 2).unwrap();
    assert_eq!(still.email, "b@ex.com");
    assert_eq!(still.display_name.as_deref(), Some("b"));
    let same = update_user_profile_internal(
        &mut db,
        2,
        None,
        Some(text("b@ex.com")),
        None,
        None,
    ).unwrap();
    assert_eq!(same.email, "b@ex.com");
    let moved = update_user_profile_internal(
        &mut db,
        2,
        None,
        Some(text("c@ex.com")),
        None,
        None,
    ).unwrap();
    assert_eq!(moved.email, "c@ex.com");
    assert!(get_user_by_email(&db, "b@ex.com").is_none());
    assert_eq!(get_user_by_email(&db, "c@ex.com").unwrap().id, 2);
    assert!(login_user(&mut db, "c@ex.com", "secret2").is_ok());
}

#[test]
fn apply_profile_update_changes_the_parts_given() {
    let mut db = storage_with(
        vec![stored(1, "a@ex.com", "h1"), stored(2, "b@ex.com", "h2")],
        2,
        None,
    );
    let shown = apply_profile_update(
        &mut db,
        2,
        Some(text("Bee")),
        Some(text("bee@ex.com")),
        Some(text("h3")),
    ).unwrap();
    assert_eq!(shown.id, 2);
    assert_eq!(shown.email, "bee@ex.com");
    assert_eq!(shown.display_name.as_deref(), Some("Bee"));
    let tables = db.into_tables();
    assert_eq!(tables.users[0].email, "a@ex.com");
    assert_eq!(tables.users[0].password_hash, "h1");
    assert_eq!(tables.users[1].email, "bee@ex.com");
    assert_eq!(tables.users[1].password_hash, "h3");
    assert_eq!(tables.users[1].display_name.as_deref(), Some("Bee"));
}

#[test]
fn the_profile_command_acts_for_whoever_is_signed_in() {
    let mut db = Database::new();
    let mut state = AppState::new();
    register(&mut db, "a@ex.com", "secret1").unwrap();
    let input = UpdateProfileInput {
        display_name: Some(text("Ada")),
        email: None,
        password: None,
        current_password: None,
    };
    assert_eq!(
        error_of(update_user_profile(&state, &mut db, input)),
        ServiceError::NotAuthenticated,
    );
    log_in(&mut state, &mut db, "a@ex.com", "secret1").unwrap();
    let input = UpdateProfileInput {
        display_name: None,
        email: Some(text("  New@Ex.Com ")),
        password: None,
        current_password: None,
    };
    let shown = update_user_profile(&state, &mut db, input).unwrap();
    assert_eq!(shown.email, "new@ex.com");
    assert_eq!(shown.display_name.as_deref(), Some("a"));
    assert_eq!(get_current_user(&state, &db).unwrap().email, "new@ex.com");
}

#[test]
fn insert_user_stores_the_credential_it_is_given() {
    let mut db = Database::new();
    let user = insert_user(&mut db, "no-at-sign", text("h")).unwrap();
    assert_eq!(user.id, 1);
    assert_eq!(user.display_name.as_deref(), Some("no-at-sign"));
    let other = insert_user(&mut db, "@ex.com", text("h")).unwrap();
    assert_eq!(other.id, 2);
    assert_eq!(other.display_name.as_deref(), Some(""));
    assert_eq!(error_of(insert_user(&mut db, "@ex.com", text("k"))), ServiceError::DuplicateEmail);
    let tables = db.into_tables();
    assert_eq!(tables.users[0].password_hash, "h");
    assert_eq!(tables.users.len(), 2);
}

#[test]
fn no_identity_is_stored_when_no_id_is_left() {
    let mut db = storage_with(Vec::new(), i64::MAX, None);
    assert_eq!(error_of(insert_user(&mut db, "a@ex.com", text("h"))), ServiceError::StorageFailure);
    assert!(db.into_tables().users.is_empty());
}

#[test]
fn the_public_shape_has_no_credential() {
    let mut row = stored(3, "a@ex.com", "$argon2id$...");
    row.display_name = Some(text("A"));
    row.avatar_url = Some(text("/avatars/a.webp"));
    row.email_verified = 1;
    let shown = PublicUser::from(row);
    assert_eq!(shown.id, 3);
    assert_eq!(shown.email, "a@ex.com");
    assert_eq!(shown.display_name.as_deref(), Some("A"));
    assert_eq!(shown.avatar_url.as_deref(), Some("/avatars/a.webp"));
    assert!(shown.email_verified);
    assert!(!PublicUser::from(stored(3, "a@ex.com", "h")).email_verified);
    let mut two = stored(3, "a@ex.com", "h");
    two.email_verified = 2;
    assert!(!PublicUser::from(two).email_verified);
}

#[test]
fn the_avatar_reference_is_a_plain_field() {
    let mut db = Database::new();
    let mut state = AppState::new();
    register(&mut db, "a@ex.com", "secret1").unwrap();
    assert_eq!(
        error_of(upload_avatar(&state, &mut db, text("/data/avatars/x.webp"))),
        ServiceError::NotAuthenticated
    );
    log_in(&mut state, &mut db, "a@ex.com", "secret1").unwrap();
    let kept = upload_avatar(&state, &mut db, text("/data/avatars/x.webp")).unwrap();
    assert_eq!(kept, "/data/avatars/x.webp");
    let user = get_current_user(&state, &db).unwrap();
    assert_eq!(user.avatar_url.as_deref(), Some("/data/avatars/x.webp"));
    assert_eq!(user.email, "a@ex.com");
    assert_eq!(
        upload_avatar_internal(&mut db, 99, text("/elsewhere.webp")).unwrap(),
        "/elsewhere.webp",
    );
    assert_eq!(get_user_by_id(&db, 1).unwrap().avatar_url.as_deref(), Some("/data/avatars/x.webp"));
    assert!(login_user(&mut db, "a@ex.com", "secret1").is_ok());
}
