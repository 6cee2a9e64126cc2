use trackly::avatar::{avatar_file_name, fresh_avatar_file_name};
use trackly::db::{Database, Tables};
use trackly::error::ServiceError;
use trackly::models::project::DbProject;
use trackly::models::session::{DbSession, DbSessionTag};
use trackly::models::user::DbUser;
use trackly::text::{local_part_of, normalize_email, same_text, text_at_or_before};

fn text(s: &str) -> String {
    s.to_string()
}

fn user(id: i64, email: &str) -> DbUser {
    DbUser {
        id,
        email: text(email),
        password_hash: text("h"),
        display_name: None,
        avatar_url: None,
        email_verified: 0,
    }
}

fn session(id: i64, status: &str) -> DbSession {
    DbSession {
        id,
        user_id: 1,
        project_id: None,
        start_time: text("2024-05-01T10:00:00+00:00"),
        end_time: None,
        description: None,
        status: text(status),
    }
}

fn project(id: i64) -> DbProject {
    DbProject { id, user_id: 1, name: text("n"), color: text("c") }
}

fn empty() -> Tables {
    Database::new().into_tables()
}

fn refused(tables: Tables) -> bool {
    match Database::from_tables(tables) {
        Err(e) => {
            assert_eq!(e, ServiceError::StorageFailure);
            true
        }
        Ok(_) => false,
    }
}

#[test]
fn new_storage_is_empty() {
    let tables = empty();
    assert!(tables.users.is_empty());
    assert!(tables.projects.is_empty());
    assert!(tables.sessions.is_empty());
    assert!(tables.session_tags.is_empty());
    assert_eq!(tables.user_seq, 0);
    assert_eq!(tables.project_seq, 0);
    assert_eq!(tables.session_seq, 0);
    assert_eq!(tables.app_session, None);
}

#[test]
fn tables_come_back_as_they_went_in() {
    let mut tables = empty();
    tables.users = vec![user(2, "a@ex.com"), user(5, "b@ex.com")];
    tables.user_seq = 7;
    tables.projects = vec![project(3)];
    tables.project_seq = 3;
    tables.sessions = vec![session(1, "running"), session(2, "running"), session(4, "cancelled")];
    tables.session_seq = 4;
    tables.session_tags = vec![DbSessionTag { session_id: 9, tag: text("orphan") }];
    tables.app_session = Some(8);
    let db = Database::from_tables(tables).unwrap();
    assert_eq!(db.app_session(), Some(8));
    let back = db.into_tables();
    assert_eq!(back.users.len(), 2);
    assert_eq!(back.users[1].id, 5);
    assert_eq!(back.users[1].email, "b@ex.com");
    assert_eq!(back.user_seq, 7);
    assert_eq!(back.projects[0].id, 3);
    assert_eq!(back.sessions.len(), 3);
    assert_eq!(back.sessions[2].status, "cancelled");
    assert_eq!(back.session_tags[0].tag, "orphan");
    assert_eq!(back.app_session, Some(8));
}

#[test]
fn rows_that_the_storage_would_not_hold_are_refused() {
    let mut twice = empty();
    twice.users = vec![user(1, "a@ex.com"), user(1, "b@ex.com")];
    twice.user_seq = 1;
    assert!(refused(twice));

    let mut same_email = empty();
    same_email.users = vec![user(1, "a@ex.com"), user(2, "a@ex.com")];
    same_email.user_seq = 2;
    assert!(refused(same_email));

    let mut ahead = empty();
    ahead.users = vec![user(3, "a@ex.com")];
    ahead.user_seq = 2;
    assert!(refused(ahead));

    let mut project_twice = empty();
    project_twice.projects = vec![project(1), project(2), project(1)];
    project_twice.project_seq = 2;
    assert!(refused(project_twice));

    let mut project_ahead = empty();
    project_ahead.projects = vec![project(1)];
    assert!(refused(project_ahead));

    let mut session_twice = empty();
    session_twice.sessions = vec![session(2, "running"), session(2, "finished")];
    session_twice.session_seq = 2;
    assert!(refused(session_twice));

    let mut session_ahead = empty();
    session_ahead.sessions = vec![session(2, "running")];
    session_ahead.session_seq = 1;
    assert!(refused(session_ahead));

    let mut odd_status = empty();
    odd_status.sessions = vec![session(1, "paused")];
    odd_status.session_seq = 1;
    assert!(refused(odd_status));
}

#[test]
fn emails_are_trimmed_and_put_in_lower_case() {
    assert_eq!(normalize_email("A@Ex.com"), "a@ex.com");
    assert_eq!(normalize_email("  Ada.Lovelace@Example.ORG\n"), "ada.lovelace@example.org");
    assert_eq!(normalize_email("a@ex.com"), "a@ex.com");
    assert_eq!(normalize_email(" \t "), "");
    assert_eq!(normalize_email("ÄB c@X.de"), "äb c@x.de");
}

#[test]
fn the_local_part_ends_at_the_first_at_sign() {
    assert_eq!(local_part_of("ada@example.org"), "ada");
    assert_eq!(local_part_of("a@b@c"), "a");
    assert_eq!(local_part_of("no-at-sign"), "no-at-sign");
    assert_eq!(local_part_of("@example.org"), "");
    assert_eq!(local_part_of(""), "");
    assert_eq!(local_part_of("jürgen@example.org"), "jürgen");
}

#[test]
fn text_is_ordered_byte_by_byte() {
    assert!(text_at_or_before("", ""));
    assert!(text_at_or_before("", "a"));
    assert!(!text_at_or_before("a", ""));
    assert!(text_at_or_before("abc", "abc"));
    assert!(text_at_or_before("abc", "abd"));
    assert!(!text_at_or_before("abd", "abc"));
    assert!(text_at_or_before("ab", "abc"));
    assert!(!text_at_or_before("abc", "ab"));
    assert!(text_at_or_before("Z", "a"));
    assert!(text_at_or_before("z", "é"));
    assert!(text_at_or_before("2024-05-01T10:00:00+00:00", "2024-05-01T10:00:01+00:00"));
    assert!(!text_at_or_before("2024-05-02T10:00:00+00:00", "2024-05-01T23:59:59+00:00"));
}

#[test]
fn same_text_compares_every_character() {
    assert!(same_text("", ""));
    assert!(same_text("running", "running"));
    assert!(!same_text("running", "runninG"));
    assert!(!same_text("running", "running "));
    assert!(!same_text("é", "e"));
    assert!(same_text("é", "é"));
}

#[test]
fn avatars_are_kept_as_webp_under_a_fresh_name() {
    assert_eq!(avatar_file_name("abc"), "abc.webp");
    assert_eq!(avatar_file_name(""), ".webp");
    let one = fresh_avatar_file_name();
    let two = fresh_avatar_file_name();
    assert_eq!(one.len(), 41);
    assert!(one.ends_with(".webp"));
    assert_eq!(one.matches('-').count(), 4);
    assert_ne!(one, two);
}

#[test]
fn each_failure_has_its_message() {
    assert_eq!(ServiceError::NotAuthenticated.message(), "Not authenticated");
    assert_eq!(ServiceError::InvalidCredentials.message(), "Invalid email or password");
    assert_eq!(ServiceError::DuplicateEmail.message(), "Email already registered");
    assert_eq!(ServiceError::SessionAlreadyActive.message(), "There is already an active session");
    assert_eq!(ServiceError::InvalidSessionState.message(), "Invalid session state");
    assert_eq!(ServiceError::NotFound.message(), "Not found");
    assert_eq!(ServiceError::MissingCredential.message(), "Current password required");
    assert_eq!(ServiceError::WrongCredential.message(), "Current password incorrect");
    assert_eq!(ServiceError::PasswordTooShort.message(), "Password too short");
    assert_eq!(ServiceError::HashingFailed.message(), "Password could not be hashed");
    assert_eq!(ServiceError::StorageFailure.message(), "Storage failure");
}
