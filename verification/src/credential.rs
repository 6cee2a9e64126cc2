//! Credentials: passwords are stored as salted Argon2 hashes in PHC string
//! form, never as given.

use crate::error::ServiceError;
use argon2::password_hash::{PasswordHash, PasswordHasher, PasswordVerifier, SaltString};
use argon2::Argon2;
use rand_core::OsRng;
use vstd::prelude::*;

verus! {

/// The error type of the `password-hash` crate.
#[verifier::external_type_specification]
#[verifier::external_body]
pub struct ExPasswordHashError(argon2::password_hash::Error);

/// A salt in the `password-hash` crate's own encoding.
#[verifier::external_type_specification]
#[verifier::external_body]
pub struct ExSaltString(argon2::password_hash::SaltString);

/// Whether Argon2, with the parameters that the credential itself names,
/// accepts `password` for the credential `hash`. False of a text that is no
/// PHC string.
pub uninterp spec fn argon2_accepts(hash: Seq<char>, password: Seq<char>) -> bool;

/// A salt of the recommended length from the operating system's random
/// source: `SaltString::generate` on `OsRng`. Nothing is claimed of it. The
/// call panics where the operating system cannot give random bytes.
#[verifier::external_body]
pub(crate) fn fresh_salt() -> (salt: SaltString) {
    SaltString::generate(&mut OsRng)
}

/// The PHC string of `password` under `salt`: `Argon2::default()` and
/// `PasswordHasher::hash_password`, then `to_string`. Trusted: a credential
/// that comes back is accepted for the same password, as the crate documents
/// for hashing followed by verifying.
#[verifier::external_body]
pub(crate) fn argon2_hash(password: &str, salt: &SaltString) -> (r: Result<
    String,
    argon2::password_hash::Error,
>)
    ensures
        r matches Ok(hash) ==> argon2_accepts(hash@, password@),
{
    match Argon2::default().hash_password(password.as_bytes(), salt) {
        Ok(hash) => Ok(hash.to_string()),
        Err(e) => Err(e),
    }
}

/// Whether `password` is the one that the credential `hash` was made from:
/// `PasswordHash::new` parses the credential, `PasswordVerifier::verify_password`
/// on `Argon2::default()` hashes `password` with the salt and parameters found
/// in it and compares. A credential that does not parse gives `false`. The
/// answer depends on the two texts alone, which is all the contract says. A
/// credential that names more memory than the machine has makes the
/// allocator abort.
#[verifier::external_body]
pub(crate) fn verify_password(hash: &str, password: &str) -> (ok: bool)
    ensures
        ok == argon2_accepts(hash@, password@),
{
    match PasswordHash::new(hash) {
        Ok(parsed) => Argon2::default().verify_password(password.as_bytes(), &parsed).is_ok(),
        Err(_) => false,
    }
}

/// A credential for `password`, under a salt made for this call. Two calls
/// with one password give different credentials; each is accepted for that
/// password.
pub fn hash_password(password: &str) -> (r: Result<String, ServiceError>)
    ensures
        match r {
            Ok(hash) => argon2_accepts(hash@, password@),
            Err(e) => e == ServiceError::HashingFailed,
        },
{
    let salt = fresh_salt();
    match argon2_hash(password, &salt) {
        Ok(hash) => Ok(hash),
        Err(_) => Err(ServiceError::HashingFailed),
    }
}

} // verus!
