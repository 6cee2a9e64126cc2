//! The failures an operation can report.

use vstd::prelude::*;

verus! {

/// Why an operation was refused.
#[derive(Debug, Clone, Copy, PartialEq, Eq, Structural)]
pub enum ServiceError {
    /// Nobody is signed in.
    NotAuthenticated,
    /// Unknown email or wrong password; the two are not told apart.
    InvalidCredentials,
    /// Another identity already has this email.
    DuplicateEmail,
    /// The owner already has a running session.
    SessionAlreadyActive,
    /// The session is absent, belongs to someone else, or is not running.
    InvalidSessionState,
    /// No such identity or project for this caller.
    NotFound,
    /// A new password was given without the current one.
    MissingCredential,
    /// The current password given does not match the stored credential.
    WrongCredential,
    /// The password is shorter than six bytes.
    PasswordTooShort,
    /// The password hasher refused to produce a credential.
    HashingFailed,
    /// The storage cannot take or give what was asked.
    StorageFailure,
}

/// Whether `r` is the failure `e`.
pub open spec fn fails_with<T>(r: Result<T, ServiceError>, e: ServiceError) -> bool {
    r matches Err(x) && x == e
}

impl ServiceError {
    /// The text shown to the person at the screen.
    pub fn message(&self) -> (text: String)
        ensures
            text@ == self.message_text(),
    {
        match self {
            ServiceError::NotAuthenticated => "Not authenticated".to_owned(),
            ServiceError::InvalidCredentials => "Invalid email or password".to_owned(),
            ServiceError::DuplicateEmail => "Email already registered".to_owned(),
            ServiceError::SessionAlreadyActive => "There is already an active session".to_owned(),
            ServiceError::InvalidSessionState => "Invalid session state".to_owned(),
            ServiceError::NotFound => "Not found".to_owned(),
            ServiceError::MissingCredential => "Current password required".to_owned(),
            ServiceError::WrongCredential => "Current password incorrect".to_owned(),
            ServiceError::PasswordTooShort => "Password too short".to_owned(),
            ServiceError::HashingFailed => "Password could not be hashed".to_owned(),
            ServiceError::StorageFailure => "Storage failure".to_owned(),
        }
    }

    /// What `message` returns, as a sequence of characters.
    pub open spec fn message_text(&self) -> Seq<char> {
        match self {
            ServiceError::NotAuthenticated => "Not authenticated"@,
            ServiceError::InvalidCredentials => "Invalid email or password"@,
            ServiceError::DuplicateEmail => "Email already registered"@,
            ServiceError::SessionAlreadyActive => "There is already an active session"@,
            ServiceError::InvalidSessionState => "Invalid session state"@,
            ServiceError::NotFound => "Not found"@,
            ServiceError::MissingCredential => "Current password required"@,
            ServiceError::WrongCredential => "Current password incorrect"@,
            ServiceError::PasswordTooShort => "Password too short"@,
            ServiceError::HashingFailed => "Password could not be hashed"@,
            ServiceError::StorageFailure => "Storage failure"@,
        }
    }
}

} // verus!
