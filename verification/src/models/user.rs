//! Identities: the stored row, with its credential, and the public shape
//! without it.

use crate::text::{copy_opt_text, opt_text};
use vstd::prelude::*;
use vstd::std_specs::convert::FromSpecImpl;

verus! {

/// What a contract can say of a stored identity.
pub struct UserRow {
    pub id: i64,
    pub email: Seq<char>,
    pub password_hash: Seq<char>,
    pub display_name: Option<Seq<char>>,
    pub avatar_url: Option<Seq<char>>,
    pub email_verified: i64,
}

/// What a contract can say of an identity as shown to callers.
pub struct PublicUserView {
    pub id: i64,
    pub email: Seq<char>,
    pub display_name: Option<Seq<char>>,
    pub avatar_url: Option<Seq<char>>,
    pub email_verified: bool,
}

impl UserRow {
    /// The row without its credential; the flag is set when the stored number is 1.
    pub open spec fn public(self) -> PublicUserView {
        PublicUserView {
            id: self.id,
            email: self.email,
            display_name: self.display_name,
            avatar_url: self.avatar_url,
            email_verified: self.email_verified == 1,
        }
    }
}

/// A row of the `users` table.
#[derive(Debug)]
pub struct DbUser {
    pub id: i64,
    pub email: String,
    pub password_hash: String,
    pub display_name: Option<String>,
    pub avatar_url: Option<String>,
    pub email_verified: i64,
}

impl View for DbUser {
    type V = UserRow;

    open spec fn view(&self) -> UserRow {
        UserRow {
            id: self.id,
            email: self.email@,
            password_hash: self.password_hash@,
            display_name: opt_text(self.display_name),
            avatar_url: opt_text(self.avatar_url),
            email_verified: self.email_verified,
        }
    }
}

impl Clone for DbUser {
    fn clone(&self) -> (r: Self)
        ensures
            r@ == self@,
    {
        DbUser {
            id: self.id,
            email: self.email.clone(),
            password_hash: self.password_hash.clone(),
            display_name: copy_opt_text(&self.display_name),
            avatar_url: copy_opt_text(&self.avatar_url),
            email_verified: self.email_verified,
        }
    }
}

/// An identity as shown to callers: no credential in it.
#[derive(Debug)]
pub struct PublicUser {
    pub id: i64,
    pub email: String,
    pub display_name: Option<String>,
    pub avatar_url: Option<String>,
    pub email_verified: bool,
}

impl View for PublicUser {
    type V = PublicUserView;

    open spec fn view(&self) -> PublicUserView {
        PublicUserView {
            id: self.id,
            email: self.email@,
            display_name: opt_text(self.display_name),
            avatar_url: opt_text(self.avatar_url),
            email_verified: self.email_verified,
        }
    }
}

impl From<DbUser> for PublicUser {
    fn from(user: DbUser) -> (r: Self)
        ensures
            r@ == user@.public(),
    {
        PublicUser {
            id: user.id,
            email: user.email,
            display_name: user.display_name,
            avatar_url: user.avatar_url,
            email_verified: user.email_verified == 1,
        }
    }
}

impl FromSpecImpl<DbUser> for PublicUser {
    open spec fn obeys_from_spec() -> bool {
        true
    }

    open spec fn from_spec(user: DbUser) -> Self {
        PublicUser {
            id: user.id,
            email: user.email,
            display_name: user.display_name,
            avatar_url: user.avatar_url,
            email_verified: user.email_verified == 1,
        }
    }
}

} // verus!
