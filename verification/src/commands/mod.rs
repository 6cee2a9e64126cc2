//! The operations as a signed-in person calls them: each first asks who is
//! signed in, and fails with `NotAuthenticated` where nobody is.

pub mod auth;
pub mod projects;
pub mod sessions;
